//! The permits that all consumers of a broker share, as long as their number is not raised.

use vstd::prelude::*;

use crate::broker::prefetch::prefetch_limit;
use crate::broker::amqp::consumer::{
    expects, next, permits_in, ConsumeAction, ConsumeEvent, Consumer,
};

verus! {

/// All consumers of a broker, with the permits that they share.
#[verifier::ext_equal]
pub struct SharedView {
    pub consumers: Seq<Consumer>,
    /// The permits that can be acquired.
    pub free: nat,
    /// The deliveries that were handed over to be worked on and are still there.
    pub alive: nat,
}

/// What happens to the consumers of a broker.
pub enum SharedEvent<P, E> {
    /// Another one starts.
    Started,
    /// Something happens to one of them.
    Happened { index: int, event: ConsumeEvent<P, E> },
    /// A delivery that was handed over is dropped, and its permit with it.
    Dropped,
}

/// A broker without consumers, for which a prefetch count was asked for.
pub open spec fn shared_start(prefetch_count: u16) -> SharedView {
    SharedView {
        consumers: Seq::empty(),
        free: prefetch_limit(prefetch_count) as nat,
        alive: 0,
    }
}

/// Whether something can happen: a permit is acquired only where one is free, and a delivery is
/// dropped only where there is one.
pub open spec fn shared_expects<P, E>(shared: SharedView, event: SharedEvent<P, E>) -> bool {
    match event {
        SharedEvent::Started => true,
        SharedEvent::Happened { index, event } => {
            &&& 0 <= index < shared.consumers.len()
            &&& expects(shared.consumers[index], event)
            &&& permits_in(event).len() <= shared.free
        },
        SharedEvent::Dropped => shared.alive > 0,
    }
}

/// How many deliveries an action hands over to be worked on.
pub open spec fn handed_over<P, E>(action: ConsumeAction<P, E>) -> nat {
    match action {
        ConsumeAction::Yield(Ok(_)) => 1,
        _ => 0,
    }
}

/// What comes of what happens. A permit that is acquired is free no more, and that of a delivery
/// that is dropped is free again.
pub open spec fn shared_next<P, E>(shared: SharedView, event: SharedEvent<P, E>) -> SharedView {
    match event {
        SharedEvent::Started => SharedView {
            consumers: shared.consumers.push(
                Consumer { held: None },
            ),
            ..shared
        },
        SharedEvent::Happened { index, event } => {
            let step = next(shared.consumers[index], event);
            SharedView {
                consumers: shared.consumers.update(index, step.0),
                free: (shared.free - permits_in(event).len()) as nat,
                alive: shared.alive + handed_over(step.1),
            }
        },
        SharedEvent::Dropped => SharedView {
            free: shared.free + 1,
            alive: (shared.alive - 1) as nat,
            ..shared
        },
    }
}

/// What has come of all that happened.
pub open spec fn shared_run<P, E>(start: SharedView, events: Seq<SharedEvent<P, E>>) -> SharedView
    decreases events.len(),
{
    if events.len() == 0 {
        start
    } else {
        shared_next(shared_run(start, events.drop_last()), events.last())
    }
}

/// Whether each thing can happen when it does.
pub open spec fn shared_can_come<P, E>(start: SharedView, events: Seq<SharedEvent<P, E>>) -> bool
    decreases events.len(),
{
    events.len() > 0 ==> shared_can_come(start, events.drop_last()) && shared_expects(
        shared_run(start, events.drop_last()),
        events.last(),
    )
}

/// Every permit is free or belongs to a delivery that is still there, at every moment and over
/// all consumers of a broker, whatever their queues.
proof fn permits_add_up<P, E>(prefetch_count: u16, events: Seq<SharedEvent<P, E>>)
    requires
        shared_can_come(shared_start(prefetch_count), events),
    ensures
        ({
            let shared = shared_run(shared_start(prefetch_count), events);
            shared.free + shared.alive == prefetch_limit(prefetch_count)
        }),
    decreases events.len(),
{
    if events.len() > 0 {
        permits_add_up(prefetch_count, events.drop_last());
    }
}

/// The prefetch limit holds for a broker as a whole: at every moment, the deliveries that all of
/// its consumers together handed over to be worked on, and that are still there, are no more than
/// the prefetch count asked for, or one where none was. While they are fewer, another permit can
/// be acquired, and with it a delivery that waits is handed over; so dropping one lets another
/// one follow.
pub proof fn prefetch_limit_is_global<P, E>(
    prefetch_count: u16,
    events: Seq<SharedEvent<P, E>>,
    index: int,
    permit: P,
)
    requires
        shared_can_come(shared_start(prefetch_count), events),
    ensures
        ({
            let shared = shared_run(shared_start(prefetch_count), events);
            let acquired = SharedEvent::<P, E>::Happened {
                index,
                event: ConsumeEvent::Acquired(Some(permit)),
            };
            let waits = 0 <= index < shared.consumers.len() && shared.consumers[index].held is Some;
            &&& shared.alive <= prefetch_limit(prefetch_count)
            &&& shared.alive < prefetch_limit(prefetch_count) && waits ==> shared_expects(
                shared,
                acquired,
            ) && shared_next(shared, acquired).alive == shared.alive + 1
            &&& shared.alive > 0 ==> shared_next(shared, SharedEvent::<P, E>::Dropped).alive
                < prefetch_limit(prefetch_count)
        }),
{
    permits_add_up(prefetch_count, events);
}

} // verus!
