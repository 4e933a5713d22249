//! The task that reads several streams at once for those who wait for them.
//!
//! A round has four parts. The task pulls observers, acknowledges what was processed, reads
//! the streams of the observers and forwards what was read, and lines the observers up for
//! the next round. What only the outside can do is an action; what came of it is the next
//! event.

use vstd::prelude::*;
use vstd::string::*;

use crate::broker::redis::queue::GROUP;
use crate::broker::redis::stream::{
    item_of, trim_id, trim_id_now, StreamBatch, StreamBatchView, StreamItem, StreamItemView,
    StreamObserver, StreamObserverView,
};
use crate::string_map::StringMap;
use crate::text::{same_text, texts};

verus! {

/// What became of reading the streams.
pub enum ReadOutcome<E> {
    /// Entries were read, or none came in time.
    Read(Option<Vec<StreamBatch>>),
    /// Reading failed; a timeout is no failure.
    Failed { error: E, timeout: bool },
}

/// What happened outside.
pub enum ReaderEvent<C, E> {
    /// A round begins, in which at most `limit` observers are pulled.
    Begin { limit: usize },
    /// An observer arrived, or none is there. Where it was waited for, none comes only once no
    /// more can come.
    Arrived(Option<StreamObserver<C>>),
    /// The next stream with processed entries, or none.
    Processed(Option<(String, Vec<String>)>),
    /// A command was carried out.
    Done(Result<(), E>),
    /// The streams were read.
    Streams(ReadOutcome<E>),
    /// An item was forwarded, or its observer was gone.
    Forwarded(bool),
    /// An observer is gone, or still there.
    Probed { observer: StreamObserver<C>, closed: bool },
    /// An observer was lined up for the next round, or could not be.
    Rescheduled(bool),
}

/// What is to be done outside.
pub enum ReaderAction<C, E> {
    /// Begin a round.
    Begin,
    /// Wait for an observer.
    Receive,
    /// Take an observer if one is there.
    Poll,
    /// Take the next stream with processed entries.
    TakeProcessed,
    /// Trim a stream, roughly, to the entries from an ID on.
    Trim { key: String, min_id: String },
    /// Acknowledge entries of a stream to a group.
    Acknowledge { key: String, group: String, ids: Vec<String> },
    /// Delete entries of a stream.
    Delete { key: String, ids: Vec<String> },
    /// Read each stream from its ID on.
    Read { keys: Vec<String>, ids: Vec<String> },
    /// Forward an item to the observer of a stream.
    Forward { key: String, item: StreamItem },
    /// Find out whether an observer is gone.
    Probe(StreamObserver<C>),
    /// Line an observer up for the next round.
    Reschedule(StreamObserver<C>),
    /// Tell the observers of an error, and end.
    Fail { error: E, observers: StringMap<StreamObserver<C>> },
    /// End.
    Stop,
}

/// The model of a [`ReadOutcome`].
pub enum ReadOutcomeView<E> {
    Read(Option<Seq<StreamBatchView>>),
    Failed { error: E, timeout: bool },
}

/// The model of a [`ReaderEvent`].
pub enum ReaderEventView<C, E> {
    Begin { limit: nat },
    Arrived(Option<StreamObserverView<C>>),
    Processed(Option<(Seq<char>, Seq<Seq<char>>)>),
    Done(Result<(), E>),
    Streams(ReadOutcomeView<E>),
    Forwarded(bool),
    Probed { observer: StreamObserverView<C>, closed: bool },
    Rescheduled(bool),
}

/// The model of a [`ReaderAction`].
pub enum ReaderActionView<C, E> {
    Begin,
    Receive,
    Poll,
    TakeProcessed,
    Trim { key: Seq<char>, min_id: Seq<char> },
    Acknowledge { key: Seq<char>, group: Seq<char>, ids: Seq<Seq<char>> },
    Delete { key: Seq<char>, ids: Seq<Seq<char>> },
    Read { keys: Seq<Seq<char>>, ids: Seq<Seq<char>> },
    Forward { key: Seq<char>, item: StreamItemView },
    Probe(StreamObserverView<C>),
    Reschedule(StreamObserverView<C>),
    Fail { error: E, observers: Map<Seq<char>, StreamObserverView<C>> },
    Stop,
}

impl<E> View for ReadOutcome<E> {
    type V = ReadOutcomeView<E>;

    open spec fn view(&self) -> ReadOutcomeView<E> {
        match *self {
            ReadOutcome::Read(None) => ReadOutcomeView::Read(None),
            ReadOutcome::Read(Some(batches)) => ReadOutcomeView::Read(
                Some(batches@.map_values(|b: StreamBatch| b@)),
            ),
            ReadOutcome::Failed { error, timeout } => ReadOutcomeView::Failed { error, timeout },
        }
    }
}

impl<C, E> View for ReaderEvent<C, E> {
    type V = ReaderEventView<C, E>;

    open spec fn view(&self) -> ReaderEventView<C, E> {
        match *self {
            ReaderEvent::Begin { limit } => ReaderEventView::Begin { limit: limit as nat },
            ReaderEvent::Arrived(None) => ReaderEventView::Arrived(None),
            ReaderEvent::Arrived(Some(o)) => ReaderEventView::Arrived(Some(o@)),
            ReaderEvent::Processed(None) => ReaderEventView::Processed(None),
            ReaderEvent::Processed(Some(s)) => ReaderEventView::Processed(
                Some((s.0@, texts(s.1@))),
            ),
            ReaderEvent::Done(r) => ReaderEventView::Done(r),
            ReaderEvent::Streams(outcome) => ReaderEventView::Streams(outcome@),
            ReaderEvent::Forwarded(b) => ReaderEventView::Forwarded(b),
            ReaderEvent::Probed { observer, closed } => ReaderEventView::Probed {
                observer: observer@,
                closed,
            },
            ReaderEvent::Rescheduled(b) => ReaderEventView::Rescheduled(b),
        }
    }
}

/// The models of the observers of a map.
pub open spec fn observers<C>(map: Map<Seq<char>, StreamObserver<C>>) -> Map<
    Seq<char>,
    StreamObserverView<C>,
> {
    map.map_values(|o: StreamObserver<C>| o@)
}

impl<C, E> View for ReaderAction<C, E> {
    type V = ReaderActionView<C, E>;

    open spec fn view(&self) -> ReaderActionView<C, E> {
        match *self {
            ReaderAction::Begin => ReaderActionView::Begin,
            ReaderAction::Receive => ReaderActionView::Receive,
            ReaderAction::Poll => ReaderActionView::Poll,
            ReaderAction::TakeProcessed => ReaderActionView::TakeProcessed,
            ReaderAction::Trim { key, min_id } => ReaderActionView::Trim {
                key: key@,
                min_id: min_id@,
            },
            ReaderAction::Acknowledge { key, group, ids } => ReaderActionView::Acknowledge {
                key: key@,
                group: group@,
                ids: texts(ids@),
            },
            ReaderAction::Delete { key, ids } => ReaderActionView::Delete {
                key: key@,
                ids: texts(ids@),
            },
            ReaderAction::Read { keys, ids } => ReaderActionView::Read {
                keys: texts(keys@),
                ids: texts(ids@),
            },
            ReaderAction::Forward { key, item } => ReaderActionView::Forward {
                key: key@,
                item: item@,
            },
            ReaderAction::Probe(o) => ReaderActionView::Probe(o@),
            ReaderAction::Reschedule(o) => ReaderActionView::Reschedule(o@),
            ReaderAction::Fail { error, observers: map } => ReaderActionView::Fail {
                error,
                observers: observers(map@),
            },
            ReaderAction::Stop => ReaderActionView::Stop,
        }
    }
}

/// The part of a round that the task is in.
pub enum ReaderPhase {
    Idle,
    Pulling { pulled: usize, limit: usize },
    Acking,
    Trimming,
    Confirming { key: String, ids: Vec<String> },
    Deleting,
    Reading,
    /// An item of the first of the batches is on its way; what is left of them follows.
    Forwarding { batches: Vec<StreamBatch> },
    Probing,
    Rescheduling,
    Stopped,
}

/// The model of a [`ReaderPhase`].
pub enum ReaderPhaseView {
    Idle,
    Pulling { pulled: nat, limit: nat },
    Acking,
    Trimming,
    Confirming { key: Seq<char>, ids: Seq<Seq<char>> },
    Deleting,
    Reading,
    Forwarding { batches: Seq<StreamBatchView> },
    Probing,
    Rescheduling,
    Stopped,
}

/// The models of some batches.
pub open spec fn batch_views(batches: Seq<StreamBatch>) -> Seq<StreamBatchView> {
    batches.map_values(|b: StreamBatch| b@)
}

impl View for ReaderPhase {
    type V = ReaderPhaseView;

    open spec fn view(&self) -> ReaderPhaseView {
        match *self {
            ReaderPhase::Idle => ReaderPhaseView::Idle,
            ReaderPhase::Pulling { pulled, limit } => ReaderPhaseView::Pulling {
                pulled: pulled as nat,
                limit: limit as nat,
            },
            ReaderPhase::Acking => ReaderPhaseView::Acking,
            ReaderPhase::Trimming => ReaderPhaseView::Trimming,
            ReaderPhase::Confirming { key, ids } => ReaderPhaseView::Confirming {
                key: key@,
                ids: texts(ids@),
            },
            ReaderPhase::Deleting => ReaderPhaseView::Deleting,
            ReaderPhase::Reading => ReaderPhaseView::Reading,
            ReaderPhase::Forwarding { batches } => ReaderPhaseView::Forwarding {
                batches: batch_views(batches@),
            },
            ReaderPhase::Probing => ReaderPhaseView::Probing,
            ReaderPhase::Rescheduling => ReaderPhaseView::Rescheduling,
            ReaderPhase::Stopped => ReaderPhaseView::Stopped,
        }
    }
}

/// The reading task.
pub struct ReaderTask<C> {
    /// Whether entries are read without acknowledging them to a group.
    read_only: bool,
    /// The streams of the observers of this round, in the order of their arrival.
    stream_keys: Vec<String>,
    /// The ID from which to read each of them.
    message_ids: Vec<String>,
    /// The observer of each stream.
    callbacks: StringMap<StreamObserver<C>>,
    phase: ReaderPhase,
}

/// The model of a [`ReaderTask`].
pub struct ReaderView<C> {
    pub read_only: bool,
    pub keys: Seq<Seq<char>>,
    pub ids: Seq<Seq<char>>,
    pub callbacks: Map<Seq<char>, StreamObserverView<C>>,
    pub phase: ReaderPhaseView,
}

impl<C> View for ReaderTask<C> {
    type V = ReaderView<C>;

    closed spec fn view(&self) -> ReaderView<C> {
        ReaderView {
            read_only: self.read_only,
            keys: texts(self.stream_keys@),
            ids: texts(self.message_ids@),
            callbacks: observers(self.callbacks@),
            phase: self.phase@,
        }
    }
}

impl<C> ReaderView<C> {
    /// The task in another phase.
    pub open spec fn at(self, phase: ReaderPhaseView) -> ReaderView<C> {
        ReaderView { phase, ..self }
    }

    /// The task once one more observer was pulled: an observer of the same stream gives way.
    pub open spec fn with_observer(self, observer: StreamObserverView<C>) -> ReaderView<C> {
        ReaderView {
            keys: self.keys.push(observer.key),
            ids: self.ids.push(observer.last_id),
            callbacks: self.callbacks.insert(observer.key, observer),
            ..self
        }
    }

    /// The task once the observer of a stream is to read from another ID.
    pub open spec fn reading_from(self, key: Seq<char>, id: Seq<char>) -> ReaderView<C> {
        ReaderView {
            callbacks: self.callbacks.insert(
                key,
                StreamObserverView { last_id: id, ..self.callbacks[key] },
            ),
            ..self
        }
    }

    /// The task once entries of a stream were acknowledged: an observer that had come to one
    /// of them goes on with new entries.
    pub open spec fn acknowledged(self, key: Seq<char>, ids: Seq<Seq<char>>) -> ReaderView<C> {
        if self.callbacks.contains_key(key) && self.callbacks[key].last_id != ">"@ && ids.contains(
            self.callbacks[key].last_id,
        ) {
            self.reading_from(key, ">"@)
        } else {
            self
        }
    }

    /// The task without the observer of a stream.
    pub open spec fn without_observer(self, key: Seq<char>) -> ReaderView<C> {
        ReaderView { callbacks: self.callbacks.remove(key), ..self }
    }
}

/// How many entries the first of some batches holds.
pub open spec fn first_count(batches: Seq<StreamBatchView>) -> nat {
    if batches.len() == 0 {
        0
    } else {
        batches[0].entries.len()
    }
}

/// Some batches without the first entry of the first one.
pub open spec fn drop_entry(batches: Seq<StreamBatchView>) -> Seq<StreamBatchView> {
    batches.update(
        0,
        StreamBatchView { entries: batches[0].entries.drop_first(), ..batches[0] },
    )
}

/// Goes through what was read up to the next item to forward. The observer of each entry
/// passed comes to its ID. Batches of streams without an observer are left out. With nothing
/// to forward any more, the observers are lined up.
pub open spec fn forward_next<C, E>(
    task: ReaderView<C>,
    batches: Seq<StreamBatchView>,
) -> (ReaderView<C>, ReaderActionView<C, E>)
    decreases batches.len(), first_count(batches),
{
    if batches.len() == 0 {
        line_up_next(task)
    } else if !task.callbacks.contains_key(batches[0].key) || batches[0].entries.len() == 0 {
        forward_next(task, batches.drop_first())
    } else {
        let key = batches[0].key;
        let entry = batches[0].entries[0];
        let passed = task.reading_from(key, entry.id);
        match item_of(task.callbacks[key].key, entry) {
            Some(item) => (
                passed.at(ReaderPhaseView::Forwarding { batches: drop_entry(batches) }),
                ReaderActionView::Forward { key, item },
            ),
            None => forward_next(passed, drop_entry(batches)),
        }
    }
}

/// Takes the observer of the next stream key, to find out whether it is still there. With no
/// key left the round is over.
pub open spec fn line_up_next<C, E>(task: ReaderView<C>) -> (
    ReaderView<C>,
    ReaderActionView<C, E>,
)
    decreases task.keys.len(),
{
    if task.keys.len() == 0 {
        (
            ReaderView { callbacks: Map::empty(), ..task }.at(ReaderPhaseView::Idle),
            ReaderActionView::Begin,
        )
    } else {
        let key = task.keys[0];
        let rest = ReaderView { keys: task.keys.drop_first(), ..task };
        if task.callbacks.contains_key(key) {
            (
                rest.without_observer(key).at(ReaderPhaseView::Probing),
                ReaderActionView::Probe(task.callbacks[key]),
            )
        } else {
            line_up_next(rest)
        }
    }
}

/// The end of a round: no observer is held any more.
pub open spec fn round_over<C, E>(task: ReaderView<C>) -> (ReaderView<C>, ReaderActionView<C, E>) {
    (
        ReaderView { keys: Seq::empty(), callbacks: Map::empty(), ..task }.at(
            ReaderPhaseView::Idle,
        ),
        ReaderActionView::Begin,
    )
}

/// The end of the task: every observer that is held is told of the error.
pub open spec fn failed<C, E>(task: ReaderView<C>, error: E) -> (
    ReaderView<C>,
    ReaderActionView<C, E>,
) {
    (
        ReaderView { callbacks: Map::empty(), ..task }.at(ReaderPhaseView::Stopped),
        ReaderActionView::Fail { error, observers: task.callbacks },
    )
}

/// Whether an event can come in a phase.
pub open spec fn expects<C, E>(phase: ReaderPhaseView, event: ReaderEventView<C, E>) -> bool {
    match phase {
        ReaderPhaseView::Idle => event is Begin,
        ReaderPhaseView::Pulling { pulled, limit } => event is Arrived && pulled < limit,
        ReaderPhaseView::Acking => event is Processed,
        ReaderPhaseView::Trimming => event is Done,
        ReaderPhaseView::Confirming { key, ids } => event is Done,
        ReaderPhaseView::Deleting => event is Done,
        ReaderPhaseView::Reading => event is Streams,
        ReaderPhaseView::Forwarding { batches } => event is Forwarded && batches.len() > 0,
        ReaderPhaseView::Probing => event is Probed,
        ReaderPhaseView::Rescheduling => event is Rescheduled,
        ReaderPhaseView::Stopped => false,
    }
}

/// What the task does on an event. The time `now` matters only where entries without a time
/// were processed.
pub open spec fn next<C, E>(task: ReaderView<C>, event: ReaderEventView<C, E>, now: i64) -> (
    ReaderView<C>,
    ReaderActionView<C, E>,
) {
    match (task.phase, event) {
        (ReaderPhaseView::Idle, ReaderEventView::Begin { limit }) => {
            let begun = ReaderView { ids: Seq::empty(), ..task };
            if limit == 0 {
                (begun.at(ReaderPhaseView::Stopped), ReaderActionView::Stop)
            } else {
                (
                    begun.at(ReaderPhaseView::Pulling { pulled: 0, limit }),
                    ReaderActionView::Receive,
                )
            }
        },
        (
            ReaderPhaseView::Pulling { pulled, limit },
            ReaderEventView::Arrived(Some(observer)),
        ) => {
            let more = task.with_observer(observer);
            if pulled + 1 < limit {
                (
                    more.at(ReaderPhaseView::Pulling { pulled: pulled + 1, limit }),
                    ReaderActionView::Poll,
                )
            } else {
                (more.at(ReaderPhaseView::Acking), ReaderActionView::TakeProcessed)
            }
        },
        (
            ReaderPhaseView::Pulling { pulled, .. },
            ReaderEventView::Arrived(None),
        ) => if pulled == 0 {
            (task.at(ReaderPhaseView::Stopped), ReaderActionView::Stop)
        } else {
            (task.at(ReaderPhaseView::Acking), ReaderActionView::TakeProcessed)
        },
        (ReaderPhaseView::Acking, ReaderEventView::Processed(None)) => (
            task.at(ReaderPhaseView::Reading),
            ReaderActionView::Read { keys: task.keys, ids: task.ids },
        ),
        (ReaderPhaseView::Acking, ReaderEventView::Processed(Some(stream))) => if task.read_only {
            (
                task.at(ReaderPhaseView::Trimming),
                ReaderActionView::Trim { key: stream.0, min_id: trim_id(stream.1, now) },
            )
        } else {
            (
                task.at(ReaderPhaseView::Confirming { key: stream.0, ids: stream.1 }),
                ReaderActionView::Acknowledge { key: stream.0, group: GROUP@, ids: stream.1 },
            )
        },
        (ReaderPhaseView::Confirming { key, ids }, ReaderEventView::Done(Ok(_))) => (
            task.acknowledged(key, ids).at(ReaderPhaseView::Deleting),
            ReaderActionView::Delete { key, ids },
        ),
        (_, ReaderEventView::Done(Ok(_))) => (
            task.at(ReaderPhaseView::Acking),
            ReaderActionView::TakeProcessed,
        ),
        (_, ReaderEventView::Done(Err(error))) => failed(task, error),
        (
            _,
            ReaderEventView::Streams(ReadOutcomeView::Failed { error, timeout }),
        ) => if timeout {
            line_up_next(task)
        } else {
            failed(task, error)
        },
        (_, ReaderEventView::Streams(ReadOutcomeView::Read(None))) => line_up_next(task),
        (_, ReaderEventView::Streams(ReadOutcomeView::Read(Some(batches)))) => forward_next(
            task,
            batches,
        ),
        (
            ReaderPhaseView::Forwarding { batches },
            ReaderEventView::Forwarded(delivered),
        ) => if delivered {
            forward_next(task.at(ReaderPhaseView::Reading), batches)
        } else {
            forward_next(
                task.at(ReaderPhaseView::Reading).without_observer(batches[0].key),
                batches.drop_first(),
            )
        },
        (_, ReaderEventView::Probed { observer, closed }) => if closed {
            line_up_next(task)
        } else {
            (task.at(ReaderPhaseView::Rescheduling), ReaderActionView::Reschedule(observer))
        },
        (_, ReaderEventView::Rescheduled(accepted)) => if accepted {
            line_up_next(task)
        } else {
            round_over(task)
        },
        _ => (task.at(ReaderPhaseView::Stopped), ReaderActionView::Stop),
    }
}

/// The model of what a step gives.
pub open spec fn step_view<C, E>(r: (ReaderTask<C>, ReaderAction<C, E>)) -> (
    ReaderView<C>,
    ReaderActionView<C, E>,
) {
    (r.0@, r.1@)
}

/// The models of observers after one was put in place.
proof fn observers_insert<C>(
    map: Map<Seq<char>, StreamObserver<C>>,
    key: Seq<char>,
    observer: StreamObserver<C>,
)
    ensures
        observers(map.insert(key, observer)) == observers(map).insert(key, observer@),
{
    assert(observers(map.insert(key, observer)) =~= observers(map).insert(key, observer@));
}

/// The models of observers after one was taken out.
proof fn observers_remove<C>(map: Map<Seq<char>, StreamObserver<C>>, key: Seq<char>)
    ensures
        observers(map.remove(key)) == observers(map).remove(key),
{
    assert(observers(map.remove(key)) =~= observers(map).remove(key));
}

impl<C> ReaderTask<C> {
    /// A task that holds no observer yet.
    pub fn new(read_only: bool) -> (r: Self)
        ensures
            r@ == (ReaderView::<C> {
                read_only,
                keys: Seq::empty(),
                ids: Seq::empty(),
                callbacks: Map::empty(),
                phase: ReaderPhaseView::Idle,
            }),
    {
        let task = ReaderTask {
            read_only,
            stream_keys: Vec::new(),
            message_ids: Vec::new(),
            callbacks: StringMap::new(),
            phase: ReaderPhase::Idle,
        };
        assert(task@.keys =~= Seq::<Seq<char>>::empty());
        assert(task@.ids =~= Seq::<Seq<char>>::empty());
        assert(task@.callbacks =~= Map::<Seq<char>, StreamObserverView<C>>::empty());
        task
    }

    /// The channel of the observer of a stream.
    pub fn callback(&self, key: &str) -> (r: Option<&C>)
        ensures
            match r {
                Some(c) => self@.callbacks.contains_key(key@) && self@.callbacks[key@].callback
                    == *c,
                None => !self@.callbacks.contains_key(key@),
            },
    {
        match self.callbacks.get(key) {
            Some(observer) => Some(&observer.callback),
            None => None,
        }
    }

    /// Pulls an observer, if one is there.
    fn pull_observers<E>(
        self,
        arrived: Option<StreamObserver<C>>,
        pulled: usize,
        limit: usize,
    ) -> (r: (Self, ReaderAction<C, E>))
        requires
            self@.phase == (ReaderPhaseView::Pulling { pulled: pulled as nat, limit: limit as nat }),
            pulled < limit,
        ensures
            step_view(r) == next::<C, E>(
                self@,
                ReaderEvent::<C, E>::Arrived(arrived)@,
                0,
            ),
    {
        let mut task = self;
        match arrived {
            Some(observer) => {
                let ghost before = task@;
                let ghost map = task.callbacks@;
                task.stream_keys.push(observer.key.clone());
                task.message_ids.push(observer.last_id.clone());
                proof {
                    assert(texts(task.stream_keys@) =~= before.keys.push(observer.key@));
                    assert(texts(task.message_ids@) =~= before.ids.push(observer.last_id@));
                    observers_insert(map, observer.key@, observer);
                }
                task.callbacks.insert(observer.key.clone(), observer);
                if pulled + 1 < limit {
                    task.phase = ReaderPhase::Pulling { pulled: pulled + 1, limit };
                    (task, ReaderAction::Poll)
                } else {
                    task.phase = ReaderPhase::Acking;
                    (task, ReaderAction::TakeProcessed)
                }
            },
            None => {
                if pulled == 0 {
                    // The observers channel has been closed
                    task.phase = ReaderPhase::Stopped;
                    (task, ReaderAction::Stop)
                } else {
                    task.phase = ReaderPhase::Acking;
                    (task, ReaderAction::TakeProcessed)
                }
            },
        }
    }

    /// Lines up the observer of the next stream key that has one.
    fn push_observers<E>(self) -> (r: (Self, ReaderAction<C, E>))
        ensures
            step_view(r) == line_up_next::<C, E>(self@),
    {
        let mut task = self;
        while task.stream_keys.len() > 0
            invariant
                line_up_next::<C, E>(task@) == line_up_next::<C, E>(self@),
            decreases task.stream_keys@.len(),
        {
            let ghost before = task@;
            let ghost map = task.callbacks@;
            let key = task.stream_keys.remove(0);
            assert(texts(task.stream_keys@) =~= before.keys.drop_first());
            assert(before.keys[0] == key@);
            let taken = task.callbacks.remove(key.as_str());
            proof {
                observers_remove(map, key@);
            }
            match taken {
                Some(observer) => {
                    task.phase = ReaderPhase::Probing;
                    return (task, ReaderAction::Probe(observer));
                },
                None => {
                    assert(observers(map).remove(key@) =~= observers(map));
                },
            }
        }
        task.callbacks.clear();
        task.phase = ReaderPhase::Idle;
        assert(task@.callbacks =~= Map::<Seq<char>, StreamObserverView<C>>::empty());
        (task, ReaderAction::Begin)
    }

    /// Forwards the next item of what was read, if there is one.
    fn read_streams<E>(self, read: Vec<StreamBatch>) -> (r: (Self, ReaderAction<C, E>))
        ensures
            step_view(r) == forward_next::<C, E>(self@, batch_views(read@)),
    {
        let mut task = self;
        let mut batches = read;
        while batches.len() > 0
            invariant
                forward_next::<C, E>(task@, batch_views(batches@)) == forward_next::<C, E>(
                    self@,
                    batch_views(read@),
                ),
            decreases batches@.len(), first_count(batch_views(batches@)),
        {
            let ghost before = task@;
            let ghost map = task.callbacks@;
            let ghost left = batch_views(batches@);
            let mut batch = batches.remove(0);
            let ghost first = batch@;
            proof {
                assert(left[0] == first);
                assert(batch_views(batches@) =~= left.drop_first());
            }
            if batch.entries.len() > 0 {
                if let Some(observer) = task.callbacks.remove(batch.key.as_str()) {
                    let mut observer = observer;
                    let entry = batch.entries.remove(0);
                    observer.last_id = entry.id.clone();
                    let item = observer.on_next(&entry);
                    let key = batch.key.clone();
                    proof {
                        assert(first.entries[0] == entry@);
                        assert(batch@.entries =~= first.entries.drop_first());
                        observers_remove(map, key@);
                        observers_insert(task.callbacks@, key@, observer);
                        assert(observers(map).remove(key@).insert(key@, observer@) =~= observers(
                            map,
                        ).insert(key@, observer@));
                    }
                    task.callbacks.insert(batch.key.clone(), observer);
                    batches.insert(0, batch);
                    proof {
                        assert(batch_views(batches@) =~= drop_entry(left));
                    }
                    if let Some(item) = item {
                        task.phase = ReaderPhase::Forwarding { batches };
                        return (task, ReaderAction::Forward { key, item });
                    }
                } else {
                    proof {
                        observers_remove(map, batch.key@);
                        assert(observers(map).remove(batch.key@) =~= observers(map));
                    }
                }
            }
        }
        task.push_observers()
    }

    /// Ends the task with an error.
    fn fail<E>(self, error: E) -> (r: (Self, ReaderAction<C, E>))
        ensures
            step_view(r) == failed(self@, error),
    {
        let ReaderTask { read_only, stream_keys, message_ids, callbacks, .. } = self;
        let task = ReaderTask {
            read_only,
            stream_keys,
            message_ids,
            callbacks: StringMap::new(),
            phase: ReaderPhase::Stopped,
        };
        assert(task@.callbacks =~= Map::<Seq<char>, StreamObserverView<C>>::empty());
        (task, ReaderAction::Fail { error, observers: callbacks })
    }

    /// Goes on with the next stream that has processed entries, or reads.
    fn ack_messages<E>(self, processed: Option<(String, Vec<String>)>) -> (r: (
        Self,
        ReaderAction<C, E>,
    ))
        requires
            self@.phase is Acking,
        ensures
            exists|now: i64|
                step_view(r) == #[trigger] next::<C, E>(
                    self@,
                    ReaderEvent::<C, E>::Processed(processed)@,
                    now,
                ),
    {
        let mut task = self;
        let ghost event = ReaderEvent::<C, E>::Processed(processed)@;
        match processed {
            None => {
                task.phase = ReaderPhase::Reading;
                let keys = copy_texts(&task.stream_keys);
                let ids = copy_texts(&task.message_ids);
                let r = (task, ReaderAction::Read { keys, ids });
                assert(step_view(r) == next::<C, E>(self@, event, 0));
                r
            },
            Some((key, ids)) => {
                if task.read_only {
                    task.phase = ReaderPhase::Trimming;
                    let min_id = trim_id_now(&ids);
                    let ghost now = choose|now: i64|
                        min_id@ == #[trigger] trim_id(texts(ids@), now);
                    let r = (task, ReaderAction::Trim { key, min_id });
                    assert(step_view(r) == next::<C, E>(self@, event, now));
                    r
                } else {
                    let sent = copy_texts(&ids);
                    task.phase = ReaderPhase::Confirming { key: key.clone(), ids };
                    let group = GROUP.to_owned();
                    let r = (task, ReaderAction::Acknowledge { key, group, ids: sent });
                    assert(step_view(r) == next::<C, E>(self@, event, 0));
                    r
                }
            },
        }
    }

    /// Lets the observer of a stream go on with new entries, if it had come to one of those
    /// acknowledged.
    fn confirm(self, key: &str, ids: &Vec<String>) -> (r: Self)
        ensures
            r@ == self@.acknowledged(key@, texts(ids@)),
    {
        let mut task = self;
        let ghost map = task.callbacks@;
        let moved: bool = match task.callbacks.get(key) {
            Some(observer) => !same_text(observer.last_id.as_str(), ">") && contains_text(
                ids,
                observer.last_id.as_str(),
            ),
            None => false,
        };
        if moved {
            if let Some(observer) = task.callbacks.remove(key) {
                let mut observer = observer;
                observer.last_id = ">".to_owned();
                proof {
                    observers_remove(map, key@);
                    observers_insert(task.callbacks@, key@, observer);
                    assert(observers(map).remove(key@).insert(key@, observer@) =~= observers(
                        map,
                    ).insert(key@, observer@));
                }
                task.callbacks.insert(key.to_owned(), observer);
            }
        }
        task
    }

    /// Takes an event and says what is to be done next.
    pub fn step<E>(self, event: ReaderEvent<C, E>) -> (r: (Self, ReaderAction<C, E>))
        requires
            expects(self@.phase, event@),
        ensures
            exists|now: i64| step_view(r) == #[trigger] next::<C, E>(self@, event@, now),
    {
        let ghost start = self@;
        let ghost happened = event@;
        let ReaderTask { read_only, stream_keys, message_ids, callbacks, phase } = self;
        let mut task = ReaderTask {
            read_only,
            stream_keys,
            message_ids,
            callbacks,
            phase: ReaderPhase::Stopped,
        };
        match event {
            ReaderEvent::Begin { limit } => {
                task.message_ids = Vec::new();
                assert(task@.ids =~= Seq::<Seq<char>>::empty());
                let r = if limit == 0 {
                    (task, ReaderAction::Stop)
                } else {
                    task.phase = ReaderPhase::Pulling { pulled: 0, limit };
                    (task, ReaderAction::Receive)
                };
                assert(step_view(r) == next::<C, E>(start, happened, 0));
                r
            },
            ReaderEvent::Arrived(arrived) => {
                if let ReaderPhase::Pulling { pulled, limit } = phase {
                    task.phase = ReaderPhase::Pulling { pulled, limit };
                    let r = task.pull_observers(arrived, pulled, limit);
                    assert(step_view(r) == next::<C, E>(start, happened, 0));
                    r
                } else {
                    (task, ReaderAction::Stop)
                }
            },
            ReaderEvent::Processed(processed) => {
                task.phase = ReaderPhase::Acking;
                task.ack_messages(processed)
            },
            ReaderEvent::Done(Ok(_)) => {
                let r = if let ReaderPhase::Confirming { key, ids } = phase {
                    task = task.confirm(key.as_str(), &ids);
                    task.phase = ReaderPhase::Deleting;
                    (task, ReaderAction::Delete { key, ids })
                } else {
                    task.phase = ReaderPhase::Acking;
                    (task, ReaderAction::TakeProcessed)
                };
                assert(step_view(r) == next::<C, E>(start, happened, 0));
                r
            },
            ReaderEvent::Done(Err(error)) => {
                let r = task.fail(error);
                assert(step_view(r) == next::<C, E>(start, happened, 0));
                r
            },
            ReaderEvent::Streams(outcome) => {
                task.phase = phase;
                let r = match outcome {
                    ReadOutcome::Failed { error, timeout } => if timeout {
                        task.push_observers()
                    } else {
                        task.fail(error)
                    },
                    ReadOutcome::Read(None) => task.push_observers(),
                    ReadOutcome::Read(Some(batches)) => task.read_streams(batches),
                };
                assert(step_view(r) == next::<C, E>(start, happened, 0));
                r
            },
            ReaderEvent::Forwarded(delivered) => {
                if let ReaderPhase::Forwarding { batches } = phase {
                    let mut batches = batches;
                    task.phase = ReaderPhase::Reading;
                    if !delivered {
                        let ghost map = task.callbacks@;
                        let ghost left = batch_views(batches@);
                        let batch = batches.remove(0);
                        let _ = task.callbacks.remove(batch.key.as_str());
                        proof {
                            observers_remove(map, batch.key@);
                            assert(left[0] == batch@);
                            assert(batch_views(batches@) =~= left.drop_first());
                        }
                    }
                    let r = task.read_streams(batches);
                    assert(step_view(r) == next::<C, E>(start, happened, 0));
                    r
                } else {
                    (task, ReaderAction::Stop)
                }
            },
            ReaderEvent::Probed { observer, closed } => {
                let r = if closed {
                    task.phase = phase;
                    task.push_observers()
                } else {
                    task.phase = ReaderPhase::Rescheduling;
                    (task, ReaderAction::Reschedule(observer))
                };
                assert(step_view(r) == next::<C, E>(start, happened, 0));
                r
            },
            ReaderEvent::Rescheduled(accepted) => {
                let r = if accepted {
                    task.phase = phase;
                    task.push_observers()
                } else {
                    task.stream_keys = Vec::new();
                    task.callbacks.clear();
                    task.phase = ReaderPhase::Idle;
                    assert(task@.keys =~= Seq::<Seq<char>>::empty());
                    assert(task@.callbacks =~= Map::<Seq<char>, StreamObserverView<C>>::empty());
                    (task, ReaderAction::Begin)
                };
                assert(step_view(r) == next::<C, E>(start, happened, 0));
                r
            },
        }
    }
}

/// Copies of some strings.
fn copy_texts(values: &Vec<String>) -> (r: Vec<String>)
    ensures
        texts(r@) == texts(values@),
{
    let copies = values.clone();
    assert(texts(copies@) =~= texts(values@));
    copies
}

/// Whether a text is among some strings.
fn contains_text(values: &Vec<String>, text: &str) -> (r: bool)
    ensures
        r == texts(values@).contains(text@),
{
    let mut i: usize = 0;
    while i < values.len()
        invariant
            i <= values@.len(),
            forall|j: int| 0 <= j < i ==> texts(values@)[j] != text@,
        decreases values@.len() - i,
    {
        if same_text(values[i].as_str(), text) {
            assert(texts(values@)[i as int] == text@);
            return true;
        }
        i = i + 1;
    }
    false
}

} // verus!
