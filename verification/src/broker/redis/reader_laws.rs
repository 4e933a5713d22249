//! What holds of the reading task in every round.

use vstd::prelude::*;

use crate::broker::redis::reader::{
    drop_entry, expects, first_count, forward_next, line_up_next, next, ReaderActionView,
    ReaderEventView, ReaderPhaseView, ReaderView,
};
use crate::broker::redis::stream::{item_of, StreamBatchView, StreamItemView, StreamObserverView};

verus! {

/// Whether each observer is held under its own stream, and under one that is to be read.
pub open spec fn in_place<C>(task: ReaderView<C>) -> bool {
    forall|key: Seq<char>| #[trigger]
        task.callbacks.contains_key(key) ==> task.callbacks[key].key == key && task.keys.contains(
            key,
        )
}

/// What holds of the task between steps.
pub open spec fn consistent<C>(task: ReaderView<C>) -> bool {
    &&& in_place(task)
    &&& match task.phase {
        ReaderPhaseView::Idle => task.keys.len() == 0,
        ReaderPhaseView::Pulling { pulled, limit } => pulled < limit && task.keys.len() == pulled
            && task.ids.len() == pulled,
        ReaderPhaseView::Acking => task.keys.len() == task.ids.len(),
        ReaderPhaseView::Trimming => task.keys.len() == task.ids.len(),
        ReaderPhaseView::Confirming { .. } => task.keys.len() == task.ids.len(),
        ReaderPhaseView::Deleting => task.keys.len() == task.ids.len(),
        ReaderPhaseView::Forwarding { batches } => batches.len() > 0
            && task.callbacks.contains_key(batches[0].key),
        _ => true,
    }
}

/// Whether an action can be carried out with what the task holds: an item goes to the
/// observer of its stream, who has come to its ID, and each stream is read from one ID.
pub open spec fn sound_action<C, E>(task: ReaderView<C>, action: ReaderActionView<C, E>) -> bool {
    match action {
        ReaderActionView::Forward { key, item } => {
            &&& task.callbacks.contains_key(key)
            &&& item.key == key
            &&& task.callbacks[key].last_id == item.id
        },
        ReaderActionView::Read { keys, ids } => keys.len() == ids.len(),
        ReaderActionView::Probe(observer) => !task.callbacks.contains_key(observer.key),
        _ => true,
    }
}

/// A task that reads from another ID holds the same observers.
proof fn reading_from_keeps_place<C>(task: ReaderView<C>, key: Seq<char>, id: Seq<char>)
    requires
        in_place(task),
        task.callbacks.contains_key(key),
    ensures
        in_place(task.reading_from(key, id)),
        task.reading_from(key, id).callbacks.dom() == task.callbacks.dom(),
{
    assert(task.reading_from(key, id).callbacks.dom() =~= task.callbacks.dom());
}

/// Lining up the next observer keeps the task consistent.
proof fn line_up_stays_consistent<C, E>(task: ReaderView<C>)
    requires
        in_place(task),
    ensures
        consistent(line_up_next::<C, E>(task).0),
        sound_action(line_up_next::<C, E>(task).0, line_up_next::<C, E>(task).1),
    decreases task.keys.len(),
{
    if task.keys.len() > 0 {
        let key = task.keys[0];
        let rest = ReaderView { keys: task.keys.drop_first(), ..task };
        assert forall|k: Seq<char>| #[trigger]
            task.callbacks.contains_key(k) && k != key implies rest.keys.contains(k) by {
            let i = choose|i: int| 0 <= i < task.keys.len() && task.keys[i] == k;
            assert(rest.keys[i - 1] == k);
        }
        if !task.callbacks.contains_key(key) {
            line_up_stays_consistent::<C, E>(rest);
        }
    }
}

/// Forwarding the next item keeps the task consistent.
proof fn forward_stays_consistent<C, E>(task: ReaderView<C>, batches: Seq<StreamBatchView>)
    requires
        in_place(task),
    ensures
        consistent(forward_next::<C, E>(task, batches).0),
        sound_action(
            forward_next::<C, E>(task, batches).0,
            forward_next::<C, E>(task, batches).1,
        ),
    decreases batches.len(), first_count(batches),
{
    if batches.len() == 0 {
        line_up_stays_consistent::<C, E>(task);
    } else if !task.callbacks.contains_key(batches[0].key) || batches[0].entries.len() == 0 {
        forward_stays_consistent::<C, E>(task, batches.drop_first());
    } else {
        let key = batches[0].key;
        let entry = batches[0].entries[0];
        reading_from_keeps_place(task, key, entry.id);
        if item_of(task.callbacks[key].key, entry) is None {
            forward_stays_consistent::<C, E>(
                task.reading_from(key, entry.id),
                drop_entry(batches),
            );
        }
    }
}

/// Every step keeps the task consistent, and asks only for what can be carried out.
pub proof fn steps_stay_consistent<C, E>(
    task: ReaderView<C>,
    event: ReaderEventView<C, E>,
    now: i64,
)
    requires
        consistent(task),
        expects(task.phase, event),
    ensures
        consistent(next(task, event, now).0),
        sound_action(next(task, event, now).0, next(task, event, now).1),
{
    match event {
        ReaderEventView::Begin { limit } => {
            assert forall|key: Seq<char>| !task.callbacks.contains_key(key) by {
                if task.callbacks.contains_key(key) {
                    assert(task.keys.contains(key));
                }
            }
        },
        ReaderEventView::Arrived(Some(observer)) => {
            let more = task.with_observer(observer);
            assert forall|key: Seq<char>| #[trigger] more.callbacks.contains_key(key) implies
                more.callbacks[key].key == key && more.keys.contains(key) by {
                if key == observer.key {
                    assert(more.keys[task.keys.len() as int] == key);
                } else {
                    let i = choose|i: int| 0 <= i < task.keys.len() && task.keys[i] == key;
                    assert(more.keys[i] == key);
                }
            }
        },
        ReaderEventView::Done(Ok(_)) => {
            if let ReaderPhaseView::Confirming { key, ids } = task.phase {
                if task.callbacks.contains_key(key) {
                    reading_from_keeps_place(task, key, ">"@);
                }
            }
        },
        ReaderEventView::Streams(outcome) => {
            line_up_stays_consistent::<C, E>(task);
            if let crate::broker::redis::reader::ReadOutcomeView::Read(Some(batches)) = outcome {
                forward_stays_consistent::<C, E>(task, batches);
            }
        },
        ReaderEventView::Forwarded(delivered) => {
            if let ReaderPhaseView::Forwarding { batches } = task.phase {
                let reading = task.at(ReaderPhaseView::Reading);
                if delivered {
                    forward_stays_consistent::<C, E>(reading, batches);
                } else {
                    forward_stays_consistent::<C, E>(
                        reading.without_observer(batches[0].key),
                        batches.drop_first(),
                    );
                }
            }
        },
        ReaderEventView::Probed { .. } => {
            line_up_stays_consistent::<C, E>(task);
        },
        ReaderEventView::Rescheduled(_) => {
            line_up_stays_consistent::<C, E>(task);
        },
        _ => {},
    }
}

/// The items of some batches that have an observer, in order.
pub open spec fn readable(observed: Set<Seq<char>>, batches: Seq<StreamBatchView>) -> Seq<
    StreamItemView,
>
    decreases batches.len(), first_count(batches),
{
    if batches.len() == 0 {
        Seq::empty()
    } else if !observed.contains(batches[0].key) || batches[0].entries.len() == 0 {
        readable(observed, batches.drop_first())
    } else {
        match item_of(batches[0].key, batches[0].entries[0]) {
            Some(item) => seq![item] + readable(observed, drop_entry(batches)),
            None => readable(observed, drop_entry(batches)),
        }
    }
}

/// What was read is forwarded item by item in its order: the next item is the first one of
/// those that have an observer, and the others are left for later. With none left, nothing is
/// forwarded.
pub proof fn items_are_forwarded_in_order<C, E>(
    task: ReaderView<C>,
    batches: Seq<StreamBatchView>,
)
    requires
        in_place(task),
    ensures
        ({
            let items = readable(task.callbacks.dom(), batches);
            let r = forward_next::<C, E>(task, batches);
            if items.len() == 0 {
                !(r.1 is Forward)
            } else {
                &&& r.1 == ReaderActionView::<C, E>::Forward { key: items[0].key, item: items[0] }
                &&& r.0.callbacks.dom() == task.callbacks.dom()
                &&& r.0.phase matches ReaderPhaseView::Forwarding { batches: left }
                &&& readable(task.callbacks.dom(), left) == items.drop_first()
            }
        }),
    decreases batches.len(), first_count(batches),
{
    if batches.len() == 0 {
        line_up_forwards_nothing::<C, E>(task);
    } else if !task.callbacks.contains_key(batches[0].key) || batches[0].entries.len() == 0 {
        items_are_forwarded_in_order::<C, E>(task, batches.drop_first());
    } else {
        let key = batches[0].key;
        let entry = batches[0].entries[0];
        reading_from_keeps_place(task, key, entry.id);
        match item_of(key, entry) {
            Some(item) => {
                let rest = readable(task.callbacks.dom(), drop_entry(batches));
                assert((seq![item] + rest).drop_first() =~= rest);
            },
            None => {
                items_are_forwarded_in_order::<C, E>(
                    task.reading_from(key, entry.id),
                    drop_entry(batches),
                );
            },
        }
    }
}

/// The items that a task forwards from a state on, in at most so many steps, where each of
/// them reaches its observer.
pub open spec fn forwarded<C, E>(
    state: (ReaderView<C>, ReaderActionView<C, E>),
    steps: nat,
) -> Seq<StreamItemView>
    decreases steps,
{
    match state.1 {
        ReaderActionView::Forward { item, .. } => if steps == 0 {
            Seq::empty()
        } else {
            seq![item] + forwarded(
                next(state.0, ReaderEventView::<C, E>::Forwarded(true), 0),
                (steps - 1) as nat,
            )
        },
        _ => Seq::empty(),
    }
}

/// Where all observers are there, everything that was read and has an observer is forwarded,
/// each item once and in the order in which it was read.
pub proof fn everything_read_is_forwarded<C, E>(
    task: ReaderView<C>,
    batches: Seq<StreamBatchView>,
    steps: nat,
)
    requires
        in_place(task),
        steps >= readable(task.callbacks.dom(), batches).len(),
    ensures
        forwarded(forward_next::<C, E>(task, batches), steps) == readable(
            task.callbacks.dom(),
            batches,
        ),
    decreases steps,
{
    let items = readable(task.callbacks.dom(), batches);
    let state = forward_next::<C, E>(task, batches);
    items_are_forwarded_in_order::<C, E>(task, batches);
    if items.len() == 0 {
        assert(forwarded(state, steps) =~= items);
    } else {
        forward_stays_consistent::<C, E>(task, batches);
        let left = state.0.phase->Forwarding_batches;
        let reading = state.0.at(ReaderPhaseView::Reading);
        everything_read_is_forwarded::<C, E>(reading, left, (steps - 1) as nat);
        assert(seq![items[0]] + items.drop_first() =~= items);
    }
}

/// Lining up observers forwards nothing.
proof fn line_up_forwards_nothing<C, E>(task: ReaderView<C>)
    ensures
        !(line_up_next::<C, E>(task).1 is Forward),
    decreases task.keys.len(),
{
    if task.keys.len() > 0 && !task.callbacks.contains_key(task.keys[0]) {
        line_up_forwards_nothing::<C, E>(ReaderView { keys: task.keys.drop_first(), ..task });
    }
}

/// Whether the observer of a stream is still held, or was handed out to be lined up again or
/// to be told of an error.
pub open spec fn accounted<C, E>(
    key: Seq<char>,
    observer: StreamObserverView<C>,
    task: ReaderView<C>,
    action: ReaderActionView<C, E>,
) -> bool {
    ||| task.callbacks.contains_key(key) && task.callbacks[key].callback == observer.callback
    ||| action matches ReaderActionView::Probe(o) && o.key == key && o.callback
        == observer.callback
    ||| action matches ReaderActionView::Fail { observers, .. } && observers.contains_key(key)
        && observers[key].callback == observer.callback
}

/// Lining up the next observer loses none.
proof fn line_up_loses_none<C, E>(task: ReaderView<C>, key: Seq<char>)
    requires
        in_place(task),
        task.callbacks.contains_key(key),
    ensures
        accounted(
            key,
            task.callbacks[key],
            line_up_next::<C, E>(task).0,
            line_up_next::<C, E>(task).1,
        ),
    decreases task.keys.len(),
{
    assert(task.keys.contains(key));
    let first = task.keys[0];
    let rest = ReaderView { keys: task.keys.drop_first(), ..task };
    if !task.callbacks.contains_key(first) {
        assert forall|k: Seq<char>| #[trigger] task.callbacks.contains_key(k) implies
            rest.keys.contains(k) by {
            let i = choose|i: int| 0 <= i < task.keys.len() && task.keys[i] == k;
            assert(rest.keys[i - 1] == k);
        }
        line_up_loses_none::<C, E>(rest, key);
    }
}

/// Forwarding the next item loses no observer.
proof fn forward_loses_none<C, E>(
    task: ReaderView<C>,
    batches: Seq<StreamBatchView>,
    key: Seq<char>,
)
    requires
        in_place(task),
        task.callbacks.contains_key(key),
    ensures
        accounted(
            key,
            task.callbacks[key],
            forward_next::<C, E>(task, batches).0,
            forward_next::<C, E>(task, batches).1,
        ),
    decreases batches.len(), first_count(batches),
{
    if batches.len() == 0 {
        line_up_loses_none::<C, E>(task, key);
    } else if !task.callbacks.contains_key(batches[0].key) || batches[0].entries.len() == 0 {
        forward_loses_none::<C, E>(task, batches.drop_first(), key);
    } else {
        let first = batches[0].key;
        let entry = batches[0].entries[0];
        reading_from_keeps_place(task, first, entry.id);
        if item_of(task.callbacks[first].key, entry) is None {
            forward_loses_none::<C, E>(
                task.reading_from(first, entry.id),
                drop_entry(batches),
                key,
            );
        }
    }
}

/// No step loses an observer: it leaves the task only to be lined up again or to be told of
/// an error, unless another one of its stream takes its place, an item could not be forwarded
/// to it, or the observers can no longer be lined up.
pub proof fn observers_are_not_lost<C, E>(
    task: ReaderView<C>,
    event: ReaderEventView<C, E>,
    now: i64,
    key: Seq<char>,
)
    requires
        consistent(task),
        expects(task.phase, event),
        task.callbacks.contains_key(key),
        !(event matches ReaderEventView::Arrived(Some(o)) && o.key == key),
        !(event == ReaderEventView::<C, E>::Forwarded(false) && (task.phase matches
            ReaderPhaseView::Forwarding { batches } && batches[0].key == key)),
        event != ReaderEventView::<C, E>::Rescheduled(false),
    ensures
        accounted(key, task.callbacks[key], next(task, event, now).0, next(task, event, now).1),
{
    match event {
        ReaderEventView::Streams(outcome) => {
            line_up_loses_none::<C, E>(task, key);
            if let crate::broker::redis::reader::ReadOutcomeView::Read(Some(batches)) = outcome {
                forward_loses_none::<C, E>(task, batches, key);
            }
        },
        ReaderEventView::Forwarded(delivered) => {
            if let ReaderPhaseView::Forwarding { batches } = task.phase {
                let reading = task.at(ReaderPhaseView::Reading);
                if delivered {
                    forward_loses_none::<C, E>(reading, batches, key);
                } else {
                    forward_loses_none::<C, E>(
                        reading.without_observer(batches[0].key),
                        batches.drop_first(),
                        key,
                    );
                }
            }
        },
        ReaderEventView::Probed { .. } => {
            line_up_loses_none::<C, E>(task, key);
        },
        ReaderEventView::Rescheduled(_) => {
            line_up_loses_none::<C, E>(task, key);
        },
        _ => {},
    }
}

} // verus!
