//! What each step of the reading task does.

use vstd::prelude::*;

use crate::broker::redis::reader::{
    batch_views, drop_entry, expects, first_count, forward_next, line_up_next, next, observers,
    ReadOutcomeView, ReaderAction, ReaderActionView, ReaderEventView, ReaderPhaseView, ReaderView,
};
use crate::broker::redis::reader_laws::{
    consistent, in_place, items_are_forwarded_in_order, readable,
};
use crate::broker::redis::stream::{
    item_of, trim_id, value_text, StreamBatch, StreamBatchView, StreamEntryView, StreamItemView,
    StreamObserver, StreamObserverView,
};
use crate::text::texts;

verus! {

/// In a group, every entry of a stream that was processed is acknowledged to the group and then
/// deleted: both times exactly the entries that were handed over, in the same order and with none
/// left out. After that the next stream is taken, and what is to be read is as it was.
pub proof fn processed_entries_are_acknowledged_and_deleted<C, E>(
    task: ReaderView<C>,
    key: Seq<char>,
    ids: Seq<Seq<char>>,
    now: i64,
)
    requires
        task.phase is Acking,
        !task.read_only,
    ensures
        ({
            let done = ReaderEventView::<C, E>::Done(Ok(()));
            let acking = next(task, ReaderEventView::<C, E>::Processed(Some((key, ids))), now);
            let deleting = next(acking.0, done, now);
            let after = next(deleting.0, done, now);
            &&& acking.1 matches ReaderActionView::Acknowledge { key: k, group, ids: acknowledged }
                && k == key && group == "_celery"@ && acknowledged == ids
            &&& expects(acking.0.phase, done)
            &&& deleting.1 matches ReaderActionView::Delete { key: k, ids: deleted } && k == key
                && deleted == ids
            &&& expects(deleting.0.phase, done)
            &&& after.1 is TakeProcessed
            &&& after.0.phase is Acking
            &&& after.0.keys == task.keys
            &&& after.0.ids == task.ids
            &&& !after.0.read_only
        }),
{
}

/// Outside a group nothing is acknowledged or deleted: a stream of which entries were processed
/// is trimmed, and after that the next stream is taken. Nothing of the task changes.
pub proof fn processed_streams_are_trimmed_outside_a_group<C, E>(
    task: ReaderView<C>,
    key: Seq<char>,
    ids: Seq<Seq<char>>,
    now: i64,
)
    requires
        task.phase is Acking,
        task.read_only,
    ensures
        ({
            let done = ReaderEventView::<C, E>::Done(Ok(()));
            let trimming = next(task, ReaderEventView::<C, E>::Processed(Some((key, ids))), now);
            let after = next(trimming.0, done, now);
            &&& trimming.1 matches ReaderActionView::Trim { key: k, min_id } && k == key && min_id
                == trim_id(
                ids,
                now,
            )
            &&& expects(trimming.0.phase, done)
            &&& after.1 is TakeProcessed
            &&& after.0 == task
        }),
{
}

/// Acknowledging entries of a stream lets the observer of that stream go on with new entries if
/// and only if it had come to one of them. No other observer changes, none comes and none goes,
/// and each keeps its stream and its channel.
pub proof fn acknowledging_moves_one_observer<C, E>(
    task: ReaderView<C>,
    key: Seq<char>,
    ids: Seq<Seq<char>>,
    now: i64,
    other: Seq<char>,
)
    requires
        task.phase == (ReaderPhaseView::Confirming { key, ids }),
    ensures
        ({
            let after = next(task, ReaderEventView::<C, E>::Done(Ok(())), now).0;
            &&& after.callbacks.contains_key(other) <==> task.callbacks.contains_key(other)
            &&& task.callbacks.contains_key(other) ==> {
                let (before, now_held) = (task.callbacks[other], after.callbacks[other]);
                &&& now_held.key == before.key
                &&& now_held.callback == before.callback
                &&& other == key && ids.contains(before.last_id) ==> now_held.last_id == ">"@
                &&& other != key || !ids.contains(before.last_id) ==> now_held.last_id
                    == before.last_id
            }
        }),
{
}

/// The task fails if and only if a command fails, or reading does for another reason than the
/// time. It then tells every observer that it holds of that very error, holds none any more, and
/// is over.
pub proof fn failures_reach_all_observers<C, E>(
    task: ReaderView<C>,
    event: ReaderEventView<C, E>,
    now: i64,
)
    requires
        expects(task.phase, event),
    ensures
        next(task, event, now).1 is Fail <==> {
            ||| event matches ReaderEventView::Done(Err(_))
            ||| event matches ReaderEventView::Streams(outcome) && outcome matches
                ReadOutcomeView::Failed { timeout, .. } && !timeout
        },
        next(task, event, now).1 matches ReaderActionView::Fail { error, observers } ==> {
            &&& observers == task.callbacks
            &&& next(task, event, now).0.phase is Stopped
            &&& event == ReaderEventView::<C, E>::Done(Err(error)) || event
                == ReaderEventView::<C, E>::Streams(
                ReadOutcomeView::Failed { error, timeout: false },
            )
        },
{
    line_up_never_fails::<C, E>(task);
    match event {
        ReaderEventView::Streams(ReadOutcomeView::Read(Some(batches))) => {
            forward_never_fails::<C, E>(task, batches);
        },
        ReaderEventView::Forwarded(delivered) => {
            if let ReaderPhaseView::Forwarding { batches } = task.phase {
                let reading = task.at(ReaderPhaseView::Reading);
                forward_never_fails::<C, E>(reading, batches);
                forward_never_fails::<C, E>(
                    reading.without_observer(batches[0].key),
                    batches.drop_first(),
                );
            }
        },
        _ => {},
    }
}

/// Lining up observers probes one or ends the round.
proof fn line_up_never_fails<C, E>(task: ReaderView<C>)
    ensures
        line_up_next::<C, E>(task).1 is Probe || line_up_next::<C, E>(task).1 is Begin,
    decreases task.keys.len(),
{
    if task.keys.len() > 0 && !task.callbacks.contains_key(task.keys[0]) {
        line_up_never_fails::<C, E>(ReaderView { keys: task.keys.drop_first(), ..task });
    }
}

/// Forwarding what was read forwards an item or lines up the observers.
proof fn forward_never_fails<C, E>(task: ReaderView<C>, batches: Seq<StreamBatchView>)
    ensures
        ({
            let action = forward_next::<C, E>(task, batches).1;
            action is Forward || action is Probe || action is Begin
        }),
    decreases batches.len(), first_count(batches),
{
    if batches.len() == 0 {
        line_up_never_fails::<C, E>(task);
    } else if !task.callbacks.contains_key(batches[0].key) || batches[0].entries.len() == 0 {
        forward_never_fails::<C, E>(task, batches.drop_first());
    } else {
        let entry = batches[0].entries[0];
        if item_of(task.callbacks[batches[0].key].key, entry) is None {
            forward_never_fails::<C, E>(
                task.reading_from(batches[0].key, entry.id),
                drop_entry(batches),
            );
        }
    }
}

/// When reading takes too long, it goes on as if nothing was there to be read.
pub proof fn a_timeout_reads_nothing<C, E>(task: ReaderView<C>, error: E, now: i64)
    requires
        task.phase is Reading,
    ensures
        next(
            task,
            ReaderEventView::<C, E>::Streams(ReadOutcomeView::Failed { error, timeout: true }),
            now,
        ) == next(task, ReaderEventView::<C, E>::Streams(ReadOutcomeView::Read(None)), now),
{
}

/// Once all that was processed is dealt with, every stream of the round is read from the ID that
/// its observer came with, in the order of their arrival.
pub proof fn streams_are_read_as_observers_came<C, E>(task: ReaderView<C>, now: i64)
    requires
        task.phase is Acking,
    ensures
        next(task, ReaderEventView::<C, E>::Processed(None), now).1 matches ReaderActionView::Read {
            keys,
            ids,
        } && keys == task.keys && ids == task.ids,
        next(task, ReaderEventView::<C, E>::Processed(None), now).0 == task.at(
            ReaderPhaseView::Reading,
        ),
{
}

/// The task once some observers arrived one after the other, with what it then does.
pub open spec fn after_arrivals<C, E>(
    task: ReaderView<C>,
    limit: nat,
    observers: Seq<StreamObserverView<C>>,
) -> (ReaderView<C>, ReaderActionView<C, E>)
    decreases observers.len(),
{
    if observers.len() == 0 {
        next(task, ReaderEventView::<C, E>::Begin { limit }, 0)
    } else {
        next(
            after_arrivals::<C, E>(task, limit, observers.drop_last()).0,
            ReaderEventView::<C, E>::Arrived(Some(observers.last())),
            0,
        )
    }
}

/// In a round the task waits for a first observer and takes those that are there, up to its
/// limit. Each of them is entered with its stream and the ID from which it reads, in the order of
/// their arrival, and of two observers of one stream the later one is kept.
pub proof fn observers_are_pulled_in_order<C, E>(
    task: ReaderView<C>,
    limit: nat,
    observers: Seq<StreamObserverView<C>>,
    i: int,
)
    requires
        task.phase is Idle,
        consistent(task),
        0 < limit,
        observers.len() <= limit,
        0 <= i < observers.len() ==> forall|j: int|
            i < j < observers.len() ==> (#[trigger] observers[j]).key != observers[i].key,
    ensures
        ({
            let (after, action) = after_arrivals::<C, E>(task, limit, observers);
            &&& after.keys.len() == observers.len()
            &&& after.ids.len() == observers.len()
            &&& 0 <= i < observers.len() ==> after.keys[i] == observers[i].key && after.ids[i]
                == observers[i].last_id && after.callbacks.contains_key(observers[i].key)
                && after.callbacks[observers[i].key] == observers[i]
            &&& after.read_only == task.read_only
            &&& if observers.len() == limit {
                action is TakeProcessed && after.phase is Acking
            } else if observers.len() == 0 {
                action is Receive && after.phase == (ReaderPhaseView::Pulling { pulled: 0, limit })
            } else {
                action is Poll && after.phase == (ReaderPhaseView::Pulling {
                    pulled: observers.len(),
                    limit,
                })
            }
        }),
    decreases observers.len(),
{
    if observers.len() > 0 {
        let earlier = observers.drop_last();
        if i < earlier.len() {
            assert forall|j: int| 0 <= i < j < earlier.len() implies (#[trigger] earlier[j]).key
                != earlier[i].key by {
                assert(earlier[j] == observers[j]);
            }
            if i >= 0 {
                assert(observers[observers.len() - 1].key != observers[i].key);
            }
        }
        observers_are_pulled_in_order::<C, E>(task, limit, earlier, i);
    }
}

/// Where no observer is there any more, those that were pulled are read for. Where none came
/// though one was waited for, the task is over, and so it is where it may hold none.
pub proof fn pulling_ends_without_observers<C, E>(task: ReaderView<C>, now: i64)
    ensures
        task.phase matches ReaderPhaseView::Pulling { pulled, limit } ==> {
            let after = next(task, ReaderEventView::<C, E>::Arrived(None), now);
            &&& pulled == 0 ==> after.1 is Stop && after.0.phase is Stopped
            &&& pulled > 0 ==> after.1 is TakeProcessed && after.0 == task.at(
                ReaderPhaseView::Acking,
            )
        },
        task.phase is Idle ==> next(task, ReaderEventView::<C, E>::Begin { limit: 0 }, now).1
            is Stop,
{
}

/// What was read is forwarded from the first item that has an observer on. An item that reached
/// its observer is followed by the next one. Where it did not, that observer gets nothing more of
/// this batch, and is held no more.
pub proof fn forwarding_follows_what_was_read<C, E>(
    task: ReaderView<C>,
    batches: Seq<StreamBatchView>,
    now: i64,
)
    requires
        in_place(task),
    ensures
        task.phase is Reading ==> first_is_forwarded(
            next(task, ReaderEventView::<C, E>::Streams(ReadOutcomeView::Read(Some(batches))), now),
            readable(task.callbacks.dom(), batches),
        ),
        task.phase == (ReaderPhaseView::Forwarding { batches }) ==> first_is_forwarded(
            next(task, ReaderEventView::<C, E>::Forwarded(true), now),
            readable(task.callbacks.dom(), batches),
        ),
        task.phase == (ReaderPhaseView::Forwarding { batches }) && batches.len() > 0 ==> {
            let after = next(task, ReaderEventView::<C, E>::Forwarded(false), now);
            &&& first_is_forwarded(
                after,
                readable(
                    task.callbacks.dom().remove(batches[0].key),
                    batches.drop_first(),
                ),
            )
            &&& !after.0.callbacks.contains_key(batches[0].key)
        },
{
    items_are_forwarded_in_order::<C, E>(task, batches);
    let reading = task.at(ReaderPhaseView::Reading);
    items_are_forwarded_in_order::<C, E>(reading, batches);
    if batches.len() > 0 {
        let key = batches[0].key;
        let without = reading.without_observer(key);
        assert(without.callbacks.dom() =~= task.callbacks.dom().remove(key));
        items_are_forwarded_in_order::<C, E>(without, batches.drop_first());
        forwarding_adds_no_observer::<C, E>(without, batches.drop_first(), key);
    }
}

/// Whether the first of some items is forwarded next, or none where there is none.
pub open spec fn first_is_forwarded<C, E>(
    state: (ReaderView<C>, ReaderActionView<C, E>),
    items: Seq<StreamItemView>,
) -> bool {
    if items.len() == 0 {
        !(state.1 is Forward)
    } else {
        state.1 matches ReaderActionView::Forward { key, item } && item == items[0] && key
            == item.key
    }
}

/// Lining up observers adds none.
proof fn line_up_adds_no_observer<C, E>(task: ReaderView<C>, key: Seq<char>)
    requires
        !task.callbacks.contains_key(key),
    ensures
        !line_up_next::<C, E>(task).0.callbacks.contains_key(key),
    decreases task.keys.len(),
{
    if task.keys.len() > 0 && !task.callbacks.contains_key(task.keys[0]) {
        line_up_adds_no_observer::<C, E>(
            ReaderView { keys: task.keys.drop_first(), ..task },
            key,
        );
    }
}

/// Forwarding what was read adds no observer.
proof fn forwarding_adds_no_observer<C, E>(
    task: ReaderView<C>,
    batches: Seq<StreamBatchView>,
    key: Seq<char>,
)
    requires
        !task.callbacks.contains_key(key),
    ensures
        !forward_next::<C, E>(task, batches).0.callbacks.contains_key(key),
    decreases batches.len(), first_count(batches),
{
    if batches.len() == 0 {
        line_up_adds_no_observer::<C, E>(task, key);
    } else if !task.callbacks.contains_key(batches[0].key) || batches[0].entries.len() == 0 {
        forwarding_adds_no_observer::<C, E>(task, batches.drop_first(), key);
    } else {
        let entry = batches[0].entries[0];
        if item_of(task.callbacks[batches[0].key].key, entry) is None {
            forwarding_adds_no_observer::<C, E>(
                task.reading_from(batches[0].key, entry.id),
                drop_entry(batches),
                key,
            );
        }
    }
}

/// Everything that was read of an observed stream and holds a message is among the items to
/// forward, under its stream and its ID and with its text.
pub proof fn every_entry_with_a_message_is_readable(
    observed: Set<Seq<char>>,
    batches: Seq<StreamBatchView>,
    i: int,
    j: int,
)
    requires
        0 <= i < batches.len(),
        0 <= j < batches[i].entries.len(),
        observed.contains(batches[i].key),
        batches[i].entries[j].fields.contains_key("json"@),
    ensures
        readable(observed, batches).contains(
            StreamItemView {
                key: batches[i].key,
                id: batches[i].entries[j].id,
                json: value_text(batches[i].entries[j].fields["json"@]),
            },
        ),
    decreases batches.len(), first_count(batches),
{
    let item = StreamItemView {
        key: batches[i].key,
        id: batches[i].entries[j].id,
        json: value_text(batches[i].entries[j].fields["json"@]),
    };
    if !observed.contains(batches[0].key) || batches[0].entries.len() == 0 {
        assert(batches.drop_first()[i - 1] == batches[i]);
        every_entry_with_a_message_is_readable(observed, batches.drop_first(), i - 1, j);
    } else {
        let left = drop_entry(batches);
        let rest = readable(observed, left);
        let first = item_of(batches[0].key, batches[0].entries[0]);
        if i == 0 && j == 0 {
            assert((seq![item] + rest)[0] == item);
        } else {
            if i == 0 {
                assert(left[0].entries[j - 1] == batches[0].entries[j]);
                every_entry_with_a_message_is_readable(observed, left, 0, j - 1);
            } else {
                assert(left[i] == batches[i]);
                every_entry_with_a_message_is_readable(observed, left, i, j);
            }
            let at = choose|at: int| 0 <= at < rest.len() && rest[at] == item;
            if let Some(f) = first {
                assert((seq![f] + rest)[at + 1] == item);
            }
        }
    }
}

/// Every item to forward was read: it is an entry of an observed stream, under its ID.
pub proof fn every_readable_item_was_read(
    observed: Set<Seq<char>>,
    batches: Seq<StreamBatchView>,
    item: StreamItemView,
)
    requires
        readable(observed, batches).contains(item),
    ensures
        observed.contains(item.key),
        exists|i: int, j: int|
            0 <= i < batches.len() && 0 <= j < batches[i].entries.len() && batches[i].key
                == item.key && (#[trigger] batches[i].entries[j]).id == item.id,
    decreases batches.len(), first_count(batches),
{
    if batches.len() > 0 {
        if !observed.contains(batches[0].key) || batches[0].entries.len() == 0 {
            let left = batches.drop_first();
            every_readable_item_was_read(observed, left, item);
            let (i, j) = choose|i: int, j: int|
                0 <= i < left.len() && 0 <= j < left[i].entries.len() && left[i].key == item.key
                    && (#[trigger] left[i].entries[j]).id == item.id;
            assert(batches[i + 1].entries[j].id == item.id);
        } else {
            let left = drop_entry(batches);
            let rest = readable(observed, left);
            let first = item_of(batches[0].key, batches[0].entries[0]);
            if first == Some(item) {
                assert(batches[0].entries[0].id == item.id);
            } else {
                if let Some(f) = first {
                    let at = choose|at: int|
                        0 <= at < (seq![f] + rest).len() && (seq![f] + rest)[at] == item;
                    assert(rest[at - 1] == item);
                }
                every_readable_item_was_read(observed, left, item);
                let (i, j) = choose|i: int, j: int|
                    0 <= i < left.len() && 0 <= j < left[i].entries.len() && left[i].key
                        == item.key && (#[trigger] left[i].entries[j]).id == item.id;
                if i == 0 {
                    assert(batches[0].entries[j + 1].id == item.id);
                } else {
                    assert(batches[i].entries[j].id == item.id);
                }
            }
        }
    }
}

/// The ID to which the observer of a stream has come once some batches were read.
pub open spec fn come_to(
    key: Seq<char>,
    last_id: Seq<char>,
    batches: Seq<StreamBatchView>,
) -> Seq<char>
    decreases batches.len(),
{
    if batches.len() == 0 {
        last_id
    } else if batches[0].key == key && batches[0].entries.len() > 0 {
        come_to(key, batches[0].entries.last().id, batches.drop_first())
    } else {
        come_to(key, last_id, batches.drop_first())
    }
}

/// Whether an observer is on its way to an ID: it has come there once nothing is left to forward,
/// and what is left brings it there otherwise.
pub open spec fn on_its_way<C, E>(
    state: (ReaderView<C>, ReaderActionView<C, E>),
    key: Seq<char>,
    goal: Seq<char>,
) -> bool {
    let (after, action) = state;
    let held = after.callbacks.contains_key(key);
    &&& action is Forward ==> held && after.phase is Forwarding && come_to(
        key,
        after.callbacks[key].last_id,
        after.phase->Forwarding_batches,
    ) == goal
    &&& !(action is Forward) && held ==> after.callbacks[key].last_id == goal
    &&& action matches ReaderActionView::Probe(observer) ==> (observer.key == key
        ==> observer.last_id == goal)
}

/// Every observer comes to the last entry of its stream that was read, and is there when it is
/// lined up again. Entries without a message count too. That an item did not reach the observer
/// of another stream makes no difference.
pub proof fn reading_brings_observers_to_the_last_entry<C, E>(
    task: ReaderView<C>,
    batches: Seq<StreamBatchView>,
    key: Seq<char>,
    now: i64,
)
    requires
        in_place(task),
        task.callbacks.contains_key(key),
    ensures
        ({
            let goal = come_to(key, task.callbacks[key].last_id, batches);
            &&& task.phase is Reading ==> on_its_way(
                next(
                    task,
                    ReaderEventView::<C, E>::Streams(ReadOutcomeView::Read(Some(batches))),
                    now,
                ),
                key,
                goal,
            )
            &&& task.phase == (ReaderPhaseView::Forwarding { batches }) ==> on_its_way(
                next(task, ReaderEventView::<C, E>::Forwarded(true), now),
                key,
                goal,
            )
            &&& task.phase == (ReaderPhaseView::Forwarding { batches }) && batches.len() > 0
                && batches[0].key != key ==> on_its_way(
                next(task, ReaderEventView::<C, E>::Forwarded(false), now),
                key,
                goal,
            )
        }),
{
    observers_come_to_the_last_entry::<C, E>(task, batches, key);
    let reading = task.at(ReaderPhaseView::Reading);
    observers_come_to_the_last_entry::<C, E>(reading, batches, key);
    if batches.len() > 0 && batches[0].key != key {
        let without = reading.without_observer(batches[0].key);
        observers_come_to_the_last_entry::<C, E>(without, batches.drop_first(), key);
    }
}

/// While what was read is forwarded, every observer is on its way to the last entry of its stream
/// that was read.
proof fn observers_come_to_the_last_entry<C, E>(
    task: ReaderView<C>,
    batches: Seq<StreamBatchView>,
    key: Seq<char>,
)
    requires
        in_place(task),
        task.callbacks.contains_key(key),
    ensures
        ({
            let goal = come_to(key, task.callbacks[key].last_id, batches);
            on_its_way(forward_next::<C, E>(task, batches), key, goal)
        }),
    decreases batches.len(), first_count(batches),
{
    if batches.len() == 0 {
        line_up_changes_no_observer::<C, E>(task, key);
    } else if !task.callbacks.contains_key(batches[0].key) || batches[0].entries.len() == 0 {
        observers_come_to_the_last_entry::<C, E>(task, batches.drop_first(), key);
    } else {
        let first = batches[0].key;
        let entry = batches[0].entries[0];
        let passed = task.reading_from(first, entry.id);
        let left = drop_entry(batches);
        assert(left.drop_first() =~= batches.drop_first());
        if batches[0].entries.len() > 1 {
            assert(left[0].entries.last() == batches[0].entries.last());
        }
        assert(come_to(key, passed.callbacks[key].last_id, left) == come_to(
            key,
            task.callbacks[key].last_id,
            batches,
        ));
        if item_of(task.callbacks[first].key, entry) is None {
            assert(in_place(passed)) by {
                assert(passed.callbacks.dom() =~= task.callbacks.dom());
            }
            observers_come_to_the_last_entry::<C, E>(passed, left, key);
        }
    }
}

/// Lining up observers changes none.
proof fn line_up_changes_no_observer<C, E>(task: ReaderView<C>, key: Seq<char>)
    requires
        in_place(task),
        task.callbacks.contains_key(key),
    ensures
        ({
            let (after, action) = line_up_next::<C, E>(task);
            &&& after.callbacks.contains_key(key) ==> after.callbacks[key] == task.callbacks[key]
            &&& action matches ReaderActionView::Probe(observer) ==> (observer.key == key
                ==> observer == task.callbacks[key])
            &&& !(action is Forward)
        }),
    decreases task.keys.len(),
{
    if task.keys.len() > 0 && !task.callbacks.contains_key(task.keys[0]) {
        let rest = ReaderView { keys: task.keys.drop_first(), ..task };
        assert forall|k: Seq<char>| #[trigger] rest.callbacks.contains_key(k) implies
            rest.callbacks[k].key == k && rest.keys.contains(k) by {
            assert(task.callbacks.contains_key(k));
            let i = choose|i: int| 0 <= i < task.keys.len() && task.keys[i] == k;
            assert(rest.keys[i - 1] == k);
        }
        line_up_changes_no_observer::<C, E>(rest, key);
    }
}

/// Whether the next observer is lined up: that of the first stream of the round that still has
/// one is taken out as it is, and where there is none the round is over and another one begins.
pub open spec fn lines_up<C, E>(
    task: ReaderView<C>,
    state: (ReaderView<C>, ReaderActionView<C, E>),
) -> bool {
    ||| exists|i: int| #[trigger] lines_up_at(task, state, i)
    ||| state.1 is Begin && state.0.phase is Idle && state.0.keys.len() == 0 && (forall|i: int|
        0 <= i < task.keys.len() ==> !task.callbacks.contains_key(#[trigger] task.keys[i]))
        && (forall|key: Seq<char>| !(#[trigger] state.0.callbacks.contains_key(key)))
}

/// Whether the observer of a stream of the round is lined up, those before it having none.
pub open spec fn lines_up_at<C, E>(
    task: ReaderView<C>,
    state: (ReaderView<C>, ReaderActionView<C, E>),
    i: int,
) -> bool {
    &&& 0 <= i < task.keys.len()
    &&& task.callbacks.contains_key(task.keys[i])
    &&& forall|j: int| 0 <= j < i ==> !task.callbacks.contains_key(#[trigger] task.keys[j])
    &&& state.1 matches ReaderActionView::Probe(observer) && observer
        == task.callbacks[task.keys[i]]
    &&& state.0.phase is Probing
    &&& state.0.keys == task.keys.skip(i + 1)
    &&& state.0.callbacks == task.callbacks.remove(task.keys[i])
    &&& state.0.ids == task.ids
    &&& state.0.read_only == task.read_only
}

/// Lining up takes the first observer that is left.
proof fn first_observer_is_lined_up<C, E>(task: ReaderView<C>)
    ensures
        lines_up(task, line_up_next::<C, E>(task)),
    decreases task.keys.len(),
{
    let state = line_up_next::<C, E>(task);
    if task.keys.len() > 0 {
        let rest = ReaderView { keys: task.keys.drop_first(), ..task };
        if task.callbacks.contains_key(task.keys[0]) {
            assert(task.keys.skip(1) =~= task.keys.drop_first());
            assert(lines_up_at(task, state, 0));
        } else {
            first_observer_is_lined_up::<C, E>(rest);
            if exists|i: int| #[trigger] lines_up_at(rest, state, i) {
                let i = choose|i: int| #[trigger] lines_up_at(rest, state, i);
                assert(rest.keys.skip(i + 1) =~= task.keys.skip(i + 2));
                assert(rest.keys[i] == task.keys[i + 1]);
                assert forall|j: int| 0 <= j < i + 1 implies !task.callbacks.contains_key(
                    #[trigger] task.keys[j],
                ) by {
                    if j > 0 {
                        assert(rest.keys[j - 1] == task.keys[j]);
                    }
                }
                assert(lines_up_at(task, state, i + 1));
            } else {
                assert forall|j: int| 0 <= j < task.keys.len() implies
                    !task.callbacks.contains_key(#[trigger] task.keys[j]) by {
                    if j > 0 {
                        assert(rest.keys[j - 1] == task.keys[j]);
                    }
                }
            }
        }
    }
}

/// After a read without entries, after an observer that is gone and after one that was lined up,
/// the first observer that is left is next. An observer that is still there is lined up as it
/// is. Where it could not be, the round is over.
pub proof fn observers_are_lined_up_in_order<C, E>(
    task: ReaderView<C>,
    observer: StreamObserverView<C>,
    now: i64,
)
    ensures
        task.phase is Reading ==> lines_up(
            task,
            next(task, ReaderEventView::<C, E>::Streams(ReadOutcomeView::Read(None)), now),
        ),
        task.phase is Probing ==> lines_up(
            task,
            next(task, ReaderEventView::<C, E>::Probed { observer, closed: true }, now),
        ),
        task.phase is Probing ==> {
            let open = next(
                task,
                ReaderEventView::<C, E>::Probed { observer, closed: false },
                now,
            );
            &&& open.1 == ReaderActionView::<C, E>::Reschedule(observer)
            &&& open.0 == task.at(ReaderPhaseView::Rescheduling)
        },
        task.phase is Rescheduling ==> lines_up(
            task,
            next(task, ReaderEventView::<C, E>::Rescheduled(true), now),
        ),
        task.phase is Rescheduling ==> {
            let over = next(task, ReaderEventView::<C, E>::Rescheduled(false), now);
            &&& over.1 is Begin
            &&& over.0.phase is Idle
            &&& over.0.keys.len() == 0
            &&& forall|key: Seq<char>| !(#[trigger] over.0.callbacks.contains_key(key))
        },
{
    first_observer_is_lined_up::<C, E>(task);
}

/// Lining up observers does not change how the task reads.
proof fn line_up_keeps_the_mode<C, E>(task: ReaderView<C>)
    ensures
        line_up_next::<C, E>(task).0.read_only == task.read_only,
    decreases task.keys.len(),
{
    if task.keys.len() > 0 && !task.callbacks.contains_key(task.keys[0]) {
        line_up_keeps_the_mode::<C, E>(ReaderView { keys: task.keys.drop_first(), ..task });
    }
}

/// Forwarding what was read does not change how the task reads.
proof fn forward_keeps_the_mode<C, E>(task: ReaderView<C>, batches: Seq<StreamBatchView>)
    ensures
        forward_next::<C, E>(task, batches).0.read_only == task.read_only,
    decreases batches.len(), first_count(batches),
{
    if batches.len() == 0 {
        line_up_keeps_the_mode::<C, E>(task);
    } else if !task.callbacks.contains_key(batches[0].key) || batches[0].entries.len() == 0 {
        forward_keeps_the_mode::<C, E>(task, batches.drop_first());
    } else {
        let entry = batches[0].entries[0];
        if item_of(task.callbacks[batches[0].key].key, entry) is None {
            forward_keeps_the_mode::<C, E>(
                task.reading_from(batches[0].key, entry.id),
                drop_entry(batches),
            );
        }
    }
}

/// A task that reads in a group does so in every step, and one that does not never does.
pub proof fn steps_keep_the_mode<C, E>(
    task: ReaderView<C>,
    event: ReaderEventView<C, E>,
    now: i64,
)
    requires
        expects(task.phase, event),
    ensures
        next(task, event, now).0.read_only == task.read_only,
{
    line_up_keeps_the_mode::<C, E>(task);
    match event {
        ReaderEventView::Streams(ReadOutcomeView::Read(Some(batches))) => {
            forward_keeps_the_mode::<C, E>(task, batches);
        },
        ReaderEventView::Forwarded(_) => {
            if let ReaderPhaseView::Forwarding { batches } = task.phase {
                let reading = task.at(ReaderPhaseView::Reading);
                forward_keeps_the_mode::<C, E>(reading, batches);
                forward_keeps_the_mode::<C, E>(
                    reading.without_observer(batches[0].key),
                    batches.drop_first(),
                );
            }
        },
        _ => {},
    }
}

/// What is to be forwarded of some batches followed by others is what is to be forwarded of the
/// first ones, followed by what is of the others.
pub proof fn batches_are_forwarded_one_after_the_other(
    observed: Set<Seq<char>>,
    first: Seq<StreamBatchView>,
    second: Seq<StreamBatchView>,
)
    ensures
        readable(observed, first + second) == readable(observed, first) + readable(
            observed,
            second,
        ),
    decreases first.len(), first_count(first),
{
    let all = first + second;
    let sum = readable(observed, first) + readable(observed, second);
    if first.len() == 0 {
        assert(all =~= second);
        assert(readable(observed, second) =~= sum);
    } else if !observed.contains(first[0].key) || first[0].entries.len() == 0 {
        assert(all.drop_first() =~= first.drop_first() + second);
        batches_are_forwarded_one_after_the_other(observed, first.drop_first(), second);
    } else {
        assert(drop_entry(all) =~= drop_entry(first) + second);
        batches_are_forwarded_one_after_the_other(observed, drop_entry(first), second);
        assert(readable(observed, all) =~= sum);
    }
}

/// A batch of one stream.
pub open spec fn batch_of(key: Seq<char>, entries: Seq<StreamEntryView>) -> Seq<StreamBatchView> {
    seq![StreamBatchView { key, entries }]
}

/// What is to be forwarded of the entries of a batch is what is of its first entries, followed by
/// what is of the later ones.
pub proof fn entries_are_forwarded_one_after_the_other(
    observed: Set<Seq<char>>,
    key: Seq<char>,
    first: Seq<StreamEntryView>,
    second: Seq<StreamEntryView>,
)
    ensures
        readable(observed, batch_of(key, first + second)) == readable(
            observed,
            batch_of(key, first),
        ) + readable(observed, batch_of(key, second)),
    decreases first.len(),
{
    reveal_with_fuel(readable, 2);
    let all = batch_of(key, first + second);
    let sum = readable(observed, batch_of(key, first)) + readable(
        observed,
        batch_of(key, second),
    );
    assert(all.drop_first() =~= Seq::<StreamBatchView>::empty());
    assert(batch_of(key, first).drop_first() =~= Seq::<StreamBatchView>::empty());
    assert(batch_of(key, second).drop_first() =~= Seq::<StreamBatchView>::empty());
    if first.len() == 0 {
        assert(first + second =~= second);
        assert(readable(observed, all) =~= sum);
    } else if !observed.contains(key) {
        assert(readable(observed, all) =~= sum);
    } else {
        assert((first + second).drop_first() =~= first.drop_first() + second);
        assert(drop_entry(all) =~= batch_of(key, first.drop_first() + second));
        assert(drop_entry(batch_of(key, first)) =~= batch_of(key, first.drop_first()));
        entries_are_forwarded_one_after_the_other(observed, key, first.drop_first(), second);
        assert(readable(observed, all) =~= sum);
    }
}

/// A single entry is to be forwarded if and only if its stream is observed and it holds a message,
/// as the item that it holds.
pub proof fn a_single_entry_is_forwarded_as_its_item(
    observed: Set<Seq<char>>,
    key: Seq<char>,
    entry: StreamEntryView,
)
    ensures
        ({
            let items = readable(observed, batch_of(key, seq![entry]));
            if observed.contains(key) && entry.fields.contains_key("json"@) {
                items.len() == 1 && items[0].key == key && items[0].id == entry.id && items[0].json
                    == value_text(entry.fields["json"@])
            } else {
                items.len() == 0
            }
        }),
{
    reveal_with_fuel(readable, 3);
    let batch = batch_of(key, seq![entry]);
    assert(batch.drop_first() =~= Seq::<StreamBatchView>::empty());
    assert(seq![entry].drop_first() =~= Seq::<StreamEntryView>::empty());
    assert(drop_entry(batch) =~= batch_of(key, Seq::empty()));
    assert(batch_of(key, Seq::empty()).drop_first() =~= Seq::<StreamBatchView>::empty());
}

/// The model of a list of texts, observers or batches leaves nothing out: it has as many members,
/// each the model of the one in its place.
pub proof fn models_leave_nothing_out<C>(
    ids: Seq<String>,
    batches: Seq<StreamBatch>,
    held: Map<Seq<char>, StreamObserver<C>>,
    i: int,
    key: Seq<char>,
)
    ensures
        texts(ids).len() == ids.len(),
        0 <= i < ids.len() ==> texts(ids)[i] == ids[i]@,
        batch_views(batches).len() == batches.len(),
        0 <= i < batches.len() ==> batch_views(batches)[i].key == batches[i].key@ && batch_views(
            batches,
        )[i].entries.len() == batches[i].entries@.len(),
        observers(held).contains_key(key) <==> held.contains_key(key),
        held.contains_key(key) ==> observers(held)[key].key == held[key].key@ && observers(
            held,
        )[key].last_id == held[key].last_id@ && observers(held)[key].callback
            == held[key].callback,
{
}

/// What is asked for by an action is what its model says, with every ID and in the same order.
pub proof fn actions_ask_for_what_their_models_say<C, E>(action: ReaderAction<C, E>, i: int)
    ensures
        match action {
            ReaderAction::Acknowledge { key, group, ids } => action@ matches
                ReaderActionView::Acknowledge { key: k, group: g, ids: s } && k == key@ && g
                == group@ && s.len() == ids@.len() && (0 <= i < ids@.len() ==> s[i] == ids@[i]@),
            ReaderAction::Delete { key, ids } => action@ matches ReaderActionView::Delete {
                key: k,
                ids: s,
            } && k == key@ && s.len() == ids@.len() && (0 <= i < ids@.len() ==> s[i] == ids@[i]@),
            ReaderAction::Read { keys, ids } => action@ matches ReaderActionView::Read {
                keys: k,
                ids: s,
            } && k.len() == keys@.len() && s.len() == ids@.len() && (0 <= i < keys@.len() ==> k[i]
                == keys@[i]@) && (0 <= i < ids@.len() ==> s[i] == ids@[i]@),
            ReaderAction::Trim { key, min_id } => action@ matches ReaderActionView::Trim {
                key: k,
                min_id: m,
            } && k == key@ && m == min_id@,
            ReaderAction::Forward { key, item } => action@ matches ReaderActionView::Forward {
                key: k,
                item: m,
            } && k == key@ && m.key == item.key@ && m.id == item.id@ && (m.json matches Some(s)
                <==> item.json is Ok) && (item.json matches Ok(s) ==> m.json == Some(s@)),
            _ => true,
        },
{
}

} // verus!
