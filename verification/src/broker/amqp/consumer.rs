//! The stream of deliveries of a consumer.

use vstd::prelude::*;

use crate::broker::amqp::message::{Delivery, DeliveryItem};

verus! {

/// Why there is no delivery to work on.
pub enum DeliveryFailure<P, E> {
    /// Receiving failed.
    Broken(E),
    /// No permit could be had: the delivery is to be tried again.
    Retry(Delivery<P>),
}

/// What happened outside.
pub enum ConsumeEvent<P, E> {
    /// The next delivery is asked for.
    Resumed,
    /// Something was received, or nothing more will be.
    Received(Option<Result<DeliveryItem, E>>),
    /// A permit was acquired, or none can be had.
    Acquired(Option<P>),
}

/// What is to be done outside.
pub enum ConsumeAction<P, E> {
    /// Wait for what comes next.
    Receive,
    /// Wait for a permit to work on one more delivery.
    Acquire,
    /// Hand over what came.
    Yield(Result<Delivery<P>, DeliveryFailure<P, E>>),
    /// End the stream.
    End,
}

/// A consumer of a queue. It holds the item that waits for a permit.
pub struct Consumer {
    pub held: Option<DeliveryItem>,
}

/// Whether an event can come: a permit comes for an item that is held.
pub open spec fn expects<P, E>(consumer: Consumer, event: ConsumeEvent<P, E>) -> bool {
    consumer.held is Some <==> event is Acquired
}

/// What comes after an event. A delivery is handed over with the permit that was acquired for
/// it; without one it comes back to be tried again.
pub open spec fn next<P, E>(consumer: Consumer, event: ConsumeEvent<P, E>) -> (
    Consumer,
    ConsumeAction<P, E>,
) {
    match event {
        ConsumeEvent::Resumed => (consumer, ConsumeAction::Receive),
        ConsumeEvent::Received(None) => (consumer, ConsumeAction::End),
        ConsumeEvent::Received(Some(Err(e))) => (
            consumer,
            ConsumeAction::Yield(Err(DeliveryFailure::Broken(e))),
        ),
        ConsumeEvent::Received(Some(Ok(item))) => (
            Consumer { held: Some(item) },
            ConsumeAction::Acquire,
        ),
        ConsumeEvent::Acquired(permit) => {
            let delivery = Delivery { item: consumer.held->0, permit };
            (
                Consumer { held: None },
                ConsumeAction::Yield(
                    if permit is Some {
                        Ok(delivery)
                    } else {
                        Err(DeliveryFailure::Retry(delivery))
                    },
                ),
            )
        },
    }
}

/// The items that came in with an event.
pub open spec fn items_in<P, E>(event: ConsumeEvent<P, E>) -> Seq<DeliveryItem> {
    match event {
        ConsumeEvent::Received(Some(Ok(item))) => seq![item],
        _ => Seq::empty(),
    }
}

/// The items that went out with an action.
pub open spec fn items_out<P, E>(action: ConsumeAction<P, E>) -> Seq<DeliveryItem> {
    match action {
        ConsumeAction::Yield(Ok(delivery)) => seq![delivery.item],
        ConsumeAction::Yield(Err(DeliveryFailure::Retry(delivery))) => seq![delivery.item],
        _ => Seq::empty(),
    }
}

/// The items that are held.
pub open spec fn items_held(consumer: Consumer) -> Seq<DeliveryItem> {
    match consumer.held {
        Some(item) => seq![item],
        None => Seq::empty(),
    }
}

/// No item is lost, repeated or overtaken: what was held, followed by what came in, is what
/// went out, followed by what is held.
pub proof fn items_come_through<P, E>(consumer: Consumer, event: ConsumeEvent<P, E>)
    requires
        expects(consumer, event),
    ensures
        items_held(consumer) + items_in(event) == items_out(next(consumer, event).1) + items_held(
            next(consumer, event).0,
        ),
{
    assert(items_held(consumer) + items_in(event) =~= items_out(next(consumer, event).1)
        + items_held(next(consumer, event).0));
}

/// What a consumer has done after some events, and what it is then.
pub open spec fn run<P, E>(consumer: Consumer, events: Seq<ConsumeEvent<P, E>>) -> (
    Consumer,
    Seq<ConsumeAction<P, E>>,
)
    decreases events.len(),
{
    if events.len() == 0 {
        (consumer, Seq::empty())
    } else {
        let before = run(consumer, events.drop_last());
        let last = next(before.0, events.last());
        (last.0, before.1.push(last.1))
    }
}

/// Whether each of some events can come when it does.
pub open spec fn can_come<P, E>(consumer: Consumer, events: Seq<ConsumeEvent<P, E>>) -> bool
    decreases events.len(),
{
    events.len() > 0 ==> can_come(consumer, events.drop_last()) && expects(
        run(consumer, events.drop_last()).0,
        events.last(),
    )
}

/// The items that came in with some events, in order.
pub open spec fn all_in<P, E>(events: Seq<ConsumeEvent<P, E>>) -> Seq<DeliveryItem>
    decreases events.len(),
{
    if events.len() == 0 {
        Seq::empty()
    } else {
        all_in(events.drop_last()) + items_in(events.last())
    }
}

/// The items that went out with some actions, in order.
pub open spec fn all_out<P, E>(actions: Seq<ConsumeAction<P, E>>) -> Seq<DeliveryItem>
    decreases actions.len(),
{
    if actions.len() == 0 {
        Seq::empty()
    } else {
        all_out(actions.drop_last()) + items_out(actions.last())
    }
}

/// A consumer hands over all items that it receives, each once and in their order: whatever
/// happens, what came in is what went out, followed by the item that waits for its permit.
pub proof fn all_items_come_through<P, E>(consumer: Consumer, events: Seq<ConsumeEvent<P, E>>)
    requires
        consumer.held is None,
        can_come(consumer, events),
    ensures
        all_in(events) == all_out(run(consumer, events).1) + items_held(run(consumer, events).0),
    decreases events.len(),
{
    if events.len() == 0 {
        assert(all_in(events) =~= all_out(run(consumer, events).1) + items_held(
            run(consumer, events).0,
        ));
    } else {
        let before = run(consumer, events.drop_last());
        let after = run(consumer, events);
        all_items_come_through(consumer, events.drop_last());
        items_come_through(before.0, events.last());
        assert(after.1.drop_last() =~= before.1);
        let out = all_out(before.1);
        let last = items_out(after.1.last());
        assert(all_in(events) == (out + items_held(before.0)) + items_in(events.last()));
        assert((out + items_held(before.0)) + items_in(events.last()) =~= out + (items_held(
            before.0,
        ) + items_in(events.last())));
        assert(out + (last + items_held(after.0)) =~= (out + last) + items_held(after.0));
    }
}

/// A delivery is handed over to be worked on if and only if it has a permit.
pub proof fn deliveries_have_permits<P, E>(consumer: Consumer, event: ConsumeEvent<P, E>)
    ensures
        match next(consumer, event).1 {
            ConsumeAction::Yield(Ok(delivery)) => delivery.permit is Some,
            ConsumeAction::Yield(Err(DeliveryFailure::Retry(delivery))) => delivery.permit is None,
            _ => true,
        },
{
}

/// The permits that came in with an event.
pub open spec fn permits_in<P, E>(event: ConsumeEvent<P, E>) -> Seq<P> {
    match event {
        ConsumeEvent::Acquired(Some(permit)) => seq![permit],
        _ => Seq::empty(),
    }
}

/// The permits of the deliveries that were handed over with an action, to be worked on or to be
/// tried again.
pub open spec fn permits_out<P, E>(action: ConsumeAction<P, E>) -> Seq<P> {
    let permit = match action {
        ConsumeAction::Yield(Ok(delivery)) => delivery.permit,
        ConsumeAction::Yield(Err(DeliveryFailure::Retry(delivery))) => delivery.permit,
        _ => None,
    };
    match permit {
        Some(p) => seq![p],
        None => Seq::empty(),
    }
}

/// The permits that came in with some events, in order.
pub open spec fn all_permits_in<P, E>(events: Seq<ConsumeEvent<P, E>>) -> Seq<P>
    decreases events.len(),
{
    if events.len() == 0 {
        Seq::empty()
    } else {
        all_permits_in(events.drop_last()) + permits_in(events.last())
    }
}

/// The permits of the deliveries that were handed over with some actions, in order.
pub open spec fn all_permits_out<P, E>(actions: Seq<ConsumeAction<P, E>>) -> Seq<P>
    decreases actions.len(),
{
    if actions.len() == 0 {
        Seq::empty()
    } else {
        all_permits_out(actions.drop_last()) + permits_out(actions.last())
    }
}

/// Whatever happens, the permits that came in are exactly those of the deliveries that were
/// handed over, each once and in order: no permit is lost, and none is used for two deliveries.
pub proof fn permits_go_with_deliveries<P, E>(consumer: Consumer, events: Seq<ConsumeEvent<P, E>>)
    ensures
        all_permits_in(events) == all_permits_out(run(consumer, events).1),
    decreases events.len(),
{
    if events.len() > 0 {
        permits_go_with_deliveries(consumer, events.drop_last());
        assert(run(consumer, events).1.drop_last() =~= run(consumer, events.drop_last()).1);
    }
}

impl Consumer {
    /// A consumer to which nothing has come yet.
    pub fn new() -> (r: Self)
        ensures
            r.held is None,
    {
        Consumer { held: None }
    }

    /// What comes after an event.
    pub fn step<P, E>(self, event: ConsumeEvent<P, E>) -> (r: (Consumer, ConsumeAction<P, E>))
        requires
            expects(self, event),
        ensures
            r == next(self, event),
    {
        match event {
            ConsumeEvent::Resumed => (self, ConsumeAction::Receive),
            ConsumeEvent::Received(None) => (self, ConsumeAction::End),
            ConsumeEvent::Received(Some(Err(e))) => (
                self,
                ConsumeAction::Yield(Err(DeliveryFailure::Broken(e))),
            ),
            ConsumeEvent::Received(Some(Ok(item))) => (
                Consumer { held: Some(item) },
                ConsumeAction::Acquire,
            ),
            ConsumeEvent::Acquired(permit) => {
                let item = match self.held {
                    Some(item) => item,
                    None => {
                        assert(false);
                        return (self, ConsumeAction::End);
                    },
                };
                let acquired = permit.is_some();
                let delivery = Delivery { item, permit };
                (
                    Consumer { held: None },
                    ConsumeAction::Yield(
                        if acquired {
                            Ok(delivery)
                        } else {
                            Err(DeliveryFailure::Retry(delivery))
                        },
                    ),
                )
            },
        }
    }
}

/// An error of the source comes out as it came in, and no error is made up.
pub proof fn errors_come_through<P, E>(consumer: Consumer, event: ConsumeEvent<P, E>, error: E)
    ensures
        next(consumer, event).1 == ConsumeAction::<P, E>::Yield(
            Err(DeliveryFailure::Broken(error)),
        ) <==> event == ConsumeEvent::<P, E>::Received(Some(Err(error))),
{
}

/// The stream ends if and only if its source does, waits for the source if and only if the next
/// delivery is asked for, and waits for a permit if and only if an item came.
pub proof fn each_event_has_its_action<P, E>(consumer: Consumer, event: ConsumeEvent<P, E>)
    ensures
        (next(consumer, event).1 is End) <==> (event matches ConsumeEvent::Received(r) && r is None),
        (next(consumer, event).1 is Receive) <==> event is Resumed,
        (next(consumer, event).1 is Acquire) <==> (event matches ConsumeEvent::Received(r)
            && r matches Some(outcome) && outcome is Ok),
{
}

} // verus!
