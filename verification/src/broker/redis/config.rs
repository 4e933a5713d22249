//! What a Redis broker is to be like, and how it is put together.

use vstd::prelude::*;

use crate::broker::redis::queue::QueueConfig;
use crate::string_map::StringMap;

verus! {

/// What a Redis broker is to be like.
#[derive(Debug)]
pub struct Config {
    pub broker_url: String,
    pub prefetch_count: u16,
    pub queues: StringMap<QueueConfig>,
    /// Kept, without an effect.
    pub heartbeat: Option<u16>,
}

/// The model of a [`Config`].
#[verifier::ext_equal]
pub struct ConfigView {
    pub broker_url: Seq<char>,
    pub prefetch_count: u16,
    pub queues: Map<Seq<char>, QueueConfig>,
    pub heartbeat: Option<u16>,
}

impl View for Config {
    type V = ConfigView;

    open spec fn view(&self) -> ConfigView {
        ConfigView {
            broker_url: self.broker_url@,
            prefetch_count: self.prefetch_count,
            queues: self.queues@,
            heartbeat: self.heartbeat,
        }
    }
}

impl ConfigView {
    /// The configuration of a broker of which only the URL is known.
    pub open spec fn initial(broker_url: Seq<char>) -> ConfigView {
        ConfigView {
            broker_url,
            prefetch_count: 10,
            queues: Map::empty(),
            heartbeat: Some(60),
        }
    }

    /// The configuration with a queue declared. One that was declared before stays.
    pub open spec fn declaring(self, name: Seq<char>, broadcast: bool) -> ConfigView {
        if self.queues.contains_key(name) {
            self
        } else {
            ConfigView { queues: self.queues.insert(name, QueueConfig { broadcast }), ..self }
        }
    }
}

/// The first declaration of a queue stands: another one of the same name changes nothing.
pub proof fn first_declaration_stands(
    config: ConfigView,
    name: Seq<char>,
    first: bool,
    second: bool,
)
    ensures
        config.declaring(name, first).declaring(name, second) == config.declaring(name, first),
{
}

/// Declarations of different queues can come in any order.
pub proof fn declarations_commute(
    config: ConfigView,
    a: Seq<char>,
    first: bool,
    b: Seq<char>,
    second: bool,
)
    requires
        a != b,
    ensures
        config.declaring(a, first).declaring(b, second) == config.declaring(b, second).declaring(
            a,
            first,
        ),
{
    assert(config.declaring(a, first).declaring(b, second) =~= config.declaring(
        b,
        second,
    ).declaring(a, first));
}

/// Builds a [`RedisBroker`](crate::broker::redis::session::RedisBroker) with a custom
/// configuration.
#[derive(Debug)]
pub struct RedisBrokerBuilder {
    pub config: Config,
}

impl View for RedisBrokerBuilder {
    type V = ConfigView;

    open spec fn view(&self) -> ConfigView {
        self.config@
    }
}

impl RedisBrokerBuilder {
    /// Create a new `RedisBrokerBuilder`.
    pub fn new(broker_url: &str) -> (r: Self)
        ensures
            r@ == ConfigView::initial(broker_url@),
    {
        RedisBrokerBuilder {
            config: Config {
                broker_url: broker_url.to_owned(),
                prefetch_count: 10,
                queues: StringMap::new(),
                heartbeat: Some(60),
            },
        }
    }

    /// Set the prefetch count.
    pub fn prefetch_count(self, prefetch_count: u16) -> (r: Self)
        ensures
            r@ == (ConfigView { prefetch_count, ..self@ }),
    {
        RedisBrokerBuilder { config: Config { prefetch_count, ..self.config } }
    }

    /// Adds a queue unless there is one of the name.
    fn declare(self, name: &str, broadcast: bool) -> (r: Self)
        ensures
            r@ == self@.declaring(name@, broadcast),
    {
        let mut config = self.config;
        if !config.queues.contains_key(name) {
            config.queues.insert(name.to_owned(), QueueConfig { broadcast });
        }
        RedisBrokerBuilder { config }
    }

    /// Declare a queue.
    pub fn declare_queue(self, name: &str) -> (r: Self)
        ensures
            r@ == self@.declaring(name@, false),
    {
        self.declare(name, false)
    }

    /// Declare a broadcast queue.
    pub fn declare_broadcast_queue(self, name: &str) -> (r: Self)
        ensures
            r@ == self@.declaring(name@, true),
    {
        self.declare(name, true)
    }

    /// Declare an exclusive queue, which is the same as to declare a queue.
    pub fn declare_exclusive_queue(self, name: &str) -> (r: Self)
        ensures
            r@ == self@.declaring(name@, false),
    {
        self.declare_queue(name)
    }

    /// Set the heartbeat, which has no effect on a Redis broker.
    pub fn heartbeat(self, heartbeat: Option<u16>) -> (r: Self)
        ensures
            r@ == (ConfigView { heartbeat, ..self@ }),
    {
        RedisBrokerBuilder { config: Config { heartbeat, ..self.config } }
    }

    /// Set the per-queue expiry time, which has no effect on a Redis broker.
    pub fn set_queue_expire_time(self, _queue_name: &str, _queue_expire_time_ms: u32) -> (r: Self)
        ensures
            r == self,
    {
        self
    }

    /// Set the per-queue message TTL, which has no effect on a Redis broker.
    pub fn set_queue_message_ttl(self, _queue_name: &str, _queue_message_ttl_ms: u32) -> (r: Self)
        ensures
            r == self,
    {
        self
    }

    /// Set the queue type, which has no effect on a Redis broker.
    pub fn set_queue_type(self, _queue_name: &str, _queue_type: &str) -> (r: Self)
        ensures
            r == self,
    {
        self
    }
}

/// A queue that is declared for the first time is of the kind that it was declared as. Other
/// queues are as they were, none is made up, and nothing else of the configuration changes.
pub proof fn declared_queues_are_there(
    config: ConfigView,
    name: Seq<char>,
    broadcast: bool,
    other: Seq<char>,
)
    ensures
        ({
            let after = config.declaring(name, broadcast);
            &&& after.queues.contains_key(name)
            &&& !config.queues.contains_key(name) ==> after.queues[name].broadcast == broadcast
            &&& config.queues.contains_key(name) ==> after.queues[name] == config.queues[name]
            &&& other != name ==> (after.queues.contains_key(other)
                <==> config.queues.contains_key(other))
            &&& config.queues.contains_key(other) ==> after.queues[other] == config.queues[other]
            &&& after.broker_url == config.broker_url
            &&& after.prefetch_count == config.prefetch_count
            &&& after.heartbeat == config.heartbeat
        }),
{
}

/// A configuration begins with the URL that it was given, ten deliveries at once, a heartbeat of a
/// minute and no queue, whatever the URL.
pub proof fn configurations_begin_with_defaults(broker_url: Seq<char>, name: Seq<char>)
    ensures
        ConfigView::initial(broker_url).broker_url == broker_url,
        ConfigView::initial(broker_url).prefetch_count == 10,
        ConfigView::initial(broker_url).heartbeat == Some(60u16),
        !ConfigView::initial(broker_url).queues.contains_key(name),
{
}

} // verus!
