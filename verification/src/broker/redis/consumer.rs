//! The stream of deliveries of a consumer.

use vstd::prelude::*;

use crate::broker::redis::queue::{QueueView, RedisQueue};
use crate::broker::redis::stream::{StreamItem, StreamItemView};
use crate::protocol::Message;
use crate::text::opt_text;
use crate::utc_time::{opt_parts, UtcTime};

verus! {

/// A delivery, with the permit that it holds while it is worked on.
#[derive(Debug)]
pub struct Delivery<P> {
    /// The queue that it came from.
    pub queue: RedisQueue,
    pub item: StreamItem,
    pub permit: Option<P>,
}

/// The model of a [`Delivery`].
pub struct DeliveryView<P> {
    pub queue: QueueView,
    pub item: StreamItemView,
    pub permit: Option<P>,
}

impl<P> View for Delivery<P> {
    type V = DeliveryView<P>;

    open spec fn view(&self) -> DeliveryView<P> {
        DeliveryView { queue: self.queue@, item: self.item@, permit: self.permit }
    }
}

impl<P> Delivery<P> {
    /// The stream and the ID of the entry to acknowledge once the delivery was worked on.
    pub fn ack(&self) -> (r: (String, String))
        ensures
            r.0@ == self@.item.key,
            r.1@ == self@.item.id,
    {
        (self.item.key.clone(), self.item.id.clone())
    }

    /// The text to read the message of the delivery from.
    pub fn payload(&self) -> (r: &str)
        ensures
            r@ == (match self@.item.json {
                Some(s) => s,
                None => Seq::<char>::empty(),
            }),
    {
        self.item.payload()
    }

    /// The message to send, and the queue to send it to, when the delivery is to be tried
    /// again at `eta`. The delivery holds `message`.
    pub fn resend(&self, message: Message, eta: Option<UtcTime>) -> (r: (Message, String))
        requires
            message@.headers.retries != Some(u32::MAX),
        ensures
            r.0@ == message@.retried(opt_parts(eta)),
            r.1@ == self@.item.key,
    {
        (message.retried(eta), self.item.key.clone())
    }

    /// A line about the delivery for logs.
    pub fn describe(&self) -> (r: String)
        ensures
            r@ == "queue: "@ + self@.item.key + ", id: "@ + self@.item.id,
    {
        self.item.describe()
    }
}

/// Why there is no delivery to work on.
pub enum DeliveryFailure<P, E> {
    /// Reading failed.
    Broken(E),
    /// No permit could be had: the delivery is to be tried again.
    Retry(Delivery<P>),
}

/// What happened outside.
pub enum ConsumeEvent<P, E> {
    /// The next delivery is asked for.
    Resumed,
    /// The subscription gave something, or ended without.
    Received(Option<Result<StreamItem, E>>),
    /// A permit was acquired, or none can be had.
    Acquired(Option<P>),
}

/// What is to be done outside.
pub enum ConsumeAction<P, E> {
    /// Subscribe to a stream from an ID on, and wait for what comes first.
    Subscribe { key: String, start_id: String },
    /// Wait for a permit to work on one more delivery.
    Acquire,
    /// Hand over what came.
    Yield(Result<Delivery<P>, DeliveryFailure<P, E>>),
}

/// The model of a [`ConsumeEvent`].
pub enum ConsumeEventView<P, E> {
    Resumed,
    Received(Option<Result<StreamItemView, E>>),
    Acquired(Option<P>),
}

/// The model of a [`ConsumeAction`].
pub enum ConsumeActionView<P, E> {
    Subscribe { key: Seq<char>, start_id: Seq<char> },
    Acquire,
    /// A delivery to work on.
    Deliver(DeliveryView<P>),
    /// A delivery to try again.
    Retry(DeliveryView<P>),
    /// An error.
    Broken(E),
}

impl<P, E> View for ConsumeEvent<P, E> {
    type V = ConsumeEventView<P, E>;

    open spec fn view(&self) -> ConsumeEventView<P, E> {
        match *self {
            ConsumeEvent::Resumed => ConsumeEventView::Resumed,
            ConsumeEvent::Received(None) => ConsumeEventView::Received(None),
            ConsumeEvent::Received(Some(Ok(item))) => ConsumeEventView::Received(Some(Ok(item@))),
            ConsumeEvent::Received(Some(Err(e))) => ConsumeEventView::Received(Some(Err(e))),
            ConsumeEvent::Acquired(permit) => ConsumeEventView::Acquired(permit),
        }
    }
}

impl<P, E> View for ConsumeAction<P, E> {
    type V = ConsumeActionView<P, E>;

    open spec fn view(&self) -> ConsumeActionView<P, E> {
        match *self {
            ConsumeAction::Subscribe { key, start_id } => ConsumeActionView::Subscribe {
                key: key@,
                start_id: start_id@,
            },
            ConsumeAction::Acquire => ConsumeActionView::Acquire,
            ConsumeAction::Yield(Ok(d)) => ConsumeActionView::Deliver(d@),
            ConsumeAction::Yield(Err(DeliveryFailure::Retry(d))) => ConsumeActionView::Retry(d@),
            ConsumeAction::Yield(Err(DeliveryFailure::Broken(e))) => ConsumeActionView::Broken(e),
        }
    }
}

/// A consumer of a queue.
#[derive(Debug)]
pub struct Consumer {
    pub queue: RedisQueue,
    /// The ID of the last item.
    pub last_id: Option<String>,
    /// The item that waits for a permit.
    pub held: Option<StreamItem>,
}

/// The model of a [`Consumer`].
pub struct ConsumerView {
    pub queue: QueueView,
    pub last_id: Option<Seq<char>>,
    pub held: Option<StreamItemView>,
}

impl View for Consumer {
    type V = ConsumerView;

    open spec fn view(&self) -> ConsumerView {
        ConsumerView {
            queue: self.queue@,
            last_id: opt_text(self.last_id),
            held: match self.held {
                Some(item) => Some(item@),
                None => None,
            },
        }
    }
}

/// Whether an event can come: a permit comes for an item that is held.
pub open spec fn expects<P, E>(consumer: ConsumerView, event: ConsumeEventView<P, E>) -> bool {
    consumer.held is Some <==> event is Acquired
}

/// The subscription that comes next.
pub open spec fn subscription<P, E>(consumer: ConsumerView) -> ConsumeActionView<P, E> {
    ConsumeActionView::Subscribe {
        key: consumer.queue.queue,
        start_id: consumer.queue.start_id(consumer.last_id),
    }
}

/// What comes after an event. A subscription that ends without an item is followed by another
/// one. A delivery is handed over with the permit that was acquired for it; without one it
/// comes back to be tried again.
pub open spec fn next<P, E>(consumer: ConsumerView, event: ConsumeEventView<P, E>) -> (
    ConsumerView,
    ConsumeActionView<P, E>,
) {
    match event {
        ConsumeEventView::Resumed => (consumer, subscription(consumer)),
        ConsumeEventView::Received(None) => (consumer, subscription(consumer)),
        ConsumeEventView::Received(Some(Err(e))) => (consumer, ConsumeActionView::Broken(e)),
        ConsumeEventView::Received(Some(Ok(item))) => (
            ConsumerView { last_id: Some(item.id), held: Some(item), ..consumer },
            ConsumeActionView::Acquire,
        ),
        ConsumeEventView::Acquired(permit) => {
            let delivery = DeliveryView {
                queue: consumer.queue,
                item: consumer.held->0,
                permit,
            };
            (
                ConsumerView { held: None, ..consumer },
                if permit is Some {
                    ConsumeActionView::Deliver(delivery)
                } else {
                    ConsumeActionView::Retry(delivery)
                },
            )
        },
    }
}

/// The items that came in with an event.
pub open spec fn items_in<P, E>(event: ConsumeEventView<P, E>) -> Seq<StreamItemView> {
    match event {
        ConsumeEventView::Received(Some(Ok(item))) => seq![item],
        _ => Seq::empty(),
    }
}

/// The items that went out with an action.
pub open spec fn items_out<P, E>(action: ConsumeActionView<P, E>) -> Seq<StreamItemView> {
    match action {
        ConsumeActionView::Deliver(delivery) => seq![delivery.item],
        ConsumeActionView::Retry(delivery) => seq![delivery.item],
        _ => Seq::empty(),
    }
}

/// The items that are held.
pub open spec fn items_held(consumer: ConsumerView) -> Seq<StreamItemView> {
    match consumer.held {
        Some(item) => seq![item],
        None => Seq::empty(),
    }
}

/// No item is lost, repeated or overtaken: what was held, followed by what came in, is what
/// went out, followed by what is held.
pub proof fn items_come_through<P, E>(consumer: ConsumerView, event: ConsumeEventView<P, E>)
    requires
        expects(consumer, event),
    ensures
        items_held(consumer) + items_in(event) == items_out(next(consumer, event).1) + items_held(
            next(consumer, event).0,
        ),
{
    assert(items_held(consumer) + items_in(event) =~= items_out(next(consumer, event).1)
        + items_held(next(consumer, event).0));
}

/// What a consumer has done after some events, and what it is then.
pub open spec fn run<P, E>(consumer: ConsumerView, events: Seq<ConsumeEventView<P, E>>) -> (
    ConsumerView,
    Seq<ConsumeActionView<P, E>>,
)
    decreases events.len(),
{
    if events.len() == 0 {
        (consumer, Seq::empty())
    } else {
        let before = run(consumer, events.drop_last());
        let last = next(before.0, events.last());
        (last.0, before.1.push(last.1))
    }
}

/// Whether each of some events can come when it does.
pub open spec fn can_come<P, E>(consumer: ConsumerView, events: Seq<ConsumeEventView<P, E>>) -> bool
    decreases events.len(),
{
    events.len() > 0 ==> can_come(consumer, events.drop_last()) && expects(
        run(consumer, events.drop_last()).0,
        events.last(),
    )
}

/// The items that came in with some events, in order.
pub open spec fn all_in<P, E>(events: Seq<ConsumeEventView<P, E>>) -> Seq<StreamItemView>
    decreases events.len(),
{
    if events.len() == 0 {
        Seq::empty()
    } else {
        all_in(events.drop_last()) + items_in(events.last())
    }
}

/// The items that went out with some actions, in order.
pub open spec fn all_out<P, E>(actions: Seq<ConsumeActionView<P, E>>) -> Seq<StreamItemView>
    decreases actions.len(),
{
    if actions.len() == 0 {
        Seq::empty()
    } else {
        all_out(actions.drop_last()) + items_out(actions.last())
    }
}

/// A consumer hands over all items that it receives, each once and in their order: whatever
/// happens, what came in is what went out, followed by the item that waits for its permit.
pub proof fn all_items_come_through<P, E>(consumer: ConsumerView, events: Seq<ConsumeEventView<P, E>>)
    requires
        consumer.held is None,
        can_come(consumer, events),
    ensures
        all_in(events) == all_out(run(consumer, events).1) + items_held(run(consumer, events).0),
    decreases events.len(),
{
    if events.len() == 0 {
        assert(all_in(events) =~= all_out(run(consumer, events).1) + items_held(
            run(consumer, events).0,
        ));
    } else {
        let before = run(consumer, events.drop_last());
        let after = run(consumer, events);
        all_items_come_through(consumer, events.drop_last());
        items_come_through(before.0, events.last());
        assert(after.1.drop_last() =~= before.1);
        let out = all_out(before.1);
        let last = items_out(after.1.last());
        assert(all_in(events) == (out + items_held(before.0)) + items_in(events.last()));
        assert((out + items_held(before.0)) + items_in(events.last()) =~= out + (items_held(
            before.0,
        ) + items_in(events.last())));
        assert(out + (last + items_held(after.0)) =~= (out + last) + items_held(after.0));
    }
}

/// A delivery is handed over to be worked on if and only if it has a permit, and every
/// delivery comes from the queue of the consumer.
pub proof fn deliveries_have_permits<P, E>(consumer: ConsumerView, event: ConsumeEventView<P, E>)
    ensures
        match next(consumer, event).1 {
            ConsumeActionView::Deliver(delivery) => delivery.permit is Some && delivery.queue
                == consumer.queue,
            ConsumeActionView::Retry(delivery) => delivery.permit is None && delivery.queue
                == consumer.queue,
            _ => true,
        },
{
}

/// After an item, whatever becomes of it, the consumer of a broadcast queue goes on with what
/// comes after it, and that of a shared queue with what nobody got yet.
pub proof fn reading_goes_on_after_the_last_item<P, E>(
    consumer: ConsumerView,
    item: StreamItemView,
    permit: Option<P>,
)
    requires
        consumer.held is None,
    ensures
        ({
            let holding = next(consumer, ConsumeEventView::<P, E>::Received(Some(Ok(item)))).0;
            let after = next(holding, ConsumeEventView::<P, E>::Acquired(permit)).0;
            next(after, ConsumeEventView::<P, E>::Resumed).1 == ConsumeActionView::<
                P,
                E,
            >::Subscribe {
                key: consumer.queue.queue,
                start_id: if consumer.queue.broadcast {
                    item.id
                } else {
                    ">"@
                },
            }
        }),
{
}

/// The permits that came in with an event.
pub open spec fn permits_in<P, E>(event: ConsumeEventView<P, E>) -> Seq<P> {
    match event {
        ConsumeEventView::Acquired(Some(permit)) => seq![permit],
        _ => Seq::empty(),
    }
}

/// The permits of the deliveries that were handed over with an action, to be worked on or to be
/// tried again.
pub open spec fn permits_out<P, E>(action: ConsumeActionView<P, E>) -> Seq<P> {
    let permit = match action {
        ConsumeActionView::Deliver(delivery) => delivery.permit,
        ConsumeActionView::Retry(delivery) => delivery.permit,
        _ => None,
    };
    match permit {
        Some(p) => seq![p],
        None => Seq::empty(),
    }
}

/// The permits that came in with some events, in order.
pub open spec fn all_permits_in<P, E>(events: Seq<ConsumeEventView<P, E>>) -> Seq<P>
    decreases events.len(),
{
    if events.len() == 0 {
        Seq::empty()
    } else {
        all_permits_in(events.drop_last()) + permits_in(events.last())
    }
}

/// The permits of the deliveries that were handed over with some actions, in order.
pub open spec fn all_permits_out<P, E>(actions: Seq<ConsumeActionView<P, E>>) -> Seq<P>
    decreases actions.len(),
{
    if actions.len() == 0 {
        Seq::empty()
    } else {
        all_permits_out(actions.drop_last()) + permits_out(actions.last())
    }
}

/// Whatever happens, the permits that came in are exactly those of the deliveries that were
/// handed over, each once and in order: no permit is lost, and none is used for two deliveries.
pub proof fn permits_go_with_deliveries<P, E>(consumer: ConsumerView, events: Seq<ConsumeEventView<P, E>>)
    ensures
        all_permits_in(events) == all_permits_out(run(consumer, events).1),
    decreases events.len(),
{
    if events.len() > 0 {
        permits_go_with_deliveries(consumer, events.drop_last());
        assert(run(consumer, events).1.drop_last() =~= run(consumer, events.drop_last()).1);
    }
}

impl Consumer {
    /// A consumer to which nothing has come yet.
    pub fn new(queue: RedisQueue) -> (r: Self)
        ensures
            r@ == (ConsumerView { queue: queue@, last_id: None, held: None }),
    {
        Consumer { queue, last_id: None, held: None }
    }

    /// The subscription that comes next.
    fn subscription<P, E>(&self) -> (r: ConsumeAction<P, E>)
        ensures
            r@ == subscription::<P, E>(self@),
    {
        ConsumeAction::Subscribe {
            key: self.queue.name().to_owned(),
            start_id: self.queue.start_id(&self.last_id),
        }
    }

    /// What comes after an event.
    pub fn step<P, E>(self, event: ConsumeEvent<P, E>) -> (r: (Consumer, ConsumeAction<P, E>))
        requires
            expects(self@, event@),
        ensures
            (r.0@, r.1@) == next(self@, event@),
    {
        match event {
            ConsumeEvent::Resumed => {
                let action = self.subscription();
                (self, action)
            },
            ConsumeEvent::Received(None) => {
                let action = self.subscription();
                (self, action)
            },
            ConsumeEvent::Received(Some(Err(e))) => (
                self,
                ConsumeAction::Yield(Err(DeliveryFailure::Broken(e))),
            ),
            ConsumeEvent::Received(Some(Ok(item))) => {
                let last_id = Some(item.id.clone());
                (
                    Consumer { queue: self.queue, last_id, held: Some(item) },
                    ConsumeAction::Acquire,
                )
            },
            ConsumeEvent::Acquired(permit) => {
                let item = match self.held {
                    Some(item) => item,
                    None => {
                        assert(false);
                        return (
                            Consumer { queue: self.queue, last_id: self.last_id, held: None },
                            ConsumeAction::Acquire,
                        );
                    },
                };
                let acquired = permit.is_some();
                let delivery = Delivery { queue: self.queue.clone(), item, permit };
                (
                    Consumer { queue: self.queue, last_id: self.last_id, held: None },
                    ConsumeAction::Yield(
                        if acquired {
                            Ok(delivery)
                        } else {
                            Err(DeliveryFailure::Retry(delivery))
                        },
                    ),
                )
            },
        }
    }
}

/// An error of a subscription comes out as it came in, no error is made up, and a permit is waited
/// for if and only if an item came.
pub proof fn errors_come_through<P, E>(
    consumer: ConsumerView,
    event: ConsumeEventView<P, E>,
    error: E,
)
    ensures
        next(consumer, event).1 == ConsumeActionView::<P, E>::Broken(error) <==> event
            == ConsumeEventView::<P, E>::Received(Some(Err(error))),
        (next(consumer, event).1 is Acquire) <==> (event matches ConsumeEventView::Received(r)
            && r matches Some(outcome) && outcome is Ok),
        (next(consumer, event).1 is Subscribe) <==> (event is Resumed || (event matches
            ConsumeEventView::Received(r) && r is None)),
{
}

/// The ID of the last item that came with some events, if one did.
pub open spec fn last_received<P, E>(events: Seq<ConsumeEventView<P, E>>) -> Option<Seq<char>>
    decreases events.len(),
{
    if events.len() == 0 {
        None
    } else {
        match events.last() {
            ConsumeEventView::Received(Some(Ok(item))) => Some(item.id),
            _ => last_received(events.drop_last()),
        }
    }
}

/// Every subscription of a consumer is to the stream of its queue. That of a broadcast queue
/// starts after the last item that came, however long ago and whatever happened since, and with
/// what is new where none came. That of a shared queue starts with what nobody got yet.
pub proof fn subscriptions_follow_the_last_item<P, E>(
    queue: QueueView,
    events: Seq<ConsumeEventView<P, E>>,
)
    ensures
        ({
            let start = ConsumerView { queue, last_id: None, held: None };
            let (after, actions) = run(start, events);
            &&& after.queue == queue
            &&& after.last_id == last_received(events)
            &&& actions.len() == events.len()
            &&& events.len() > 0 ==> (actions.last() matches ConsumeActionView::Subscribe {
                key,
                start_id,
            } ==> key == queue.queue && start_id == (if !queue.broadcast {
                ">"@
            } else if last_received(events) is Some {
                last_received(events)->0
            } else {
                "$"@
            }))
        }),
    decreases events.len(),
{
    if events.len() > 0 {
        subscriptions_follow_the_last_item(queue, events.drop_last());
    }
}

} // verus!
