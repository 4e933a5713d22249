//! Queues of a Redis broker: how their streams are set up and subscribed to.

use vstd::prelude::*;

use crate::broker::redis::batch::RedisStreamsBatchReader;
use crate::broker::redis::stream::{StreamObserver, StreamObserverView};
use crate::text::{copy_opt, opt_text};

verus! {

/// The consumer group in which workers share a stream.
pub const GROUP: &'static str = "_celery";

/// What is asked for of a queue.
#[derive(Clone, Copy, Debug, PartialEq, Eq)]
pub struct QueueConfig {
    /// Whether every consumer gets every message.
    pub broadcast: bool,
}

/// A queue of which every consumer gets every message.
#[derive(Debug)]
pub struct BroadcastQueue {
    pub queue: String,
}

/// A queue that workers share: each message goes to one of them.
#[derive(Debug)]
pub struct CooperativeQueue {
    pub queue: String,
}

/// A declared queue.
#[derive(Debug)]
pub enum RedisQueue {
    Broadcast(BroadcastQueue),
    Cooperative(CooperativeQueue),
}

/// The model of a [`RedisQueue`].
pub struct QueueView {
    pub queue: Seq<char>,
    pub broadcast: bool,
}

impl View for RedisQueue {
    type V = QueueView;

    open spec fn view(&self) -> QueueView {
        match *self {
            RedisQueue::Broadcast(q) => QueueView { queue: q.queue@, broadcast: true },
            RedisQueue::Cooperative(q) => QueueView { queue: q.queue@, broadcast: false },
        }
    }
}

impl Clone for RedisQueue {
    fn clone(&self) -> (r: Self)
        ensures
            r@ == self@,
    {
        match self {
            RedisQueue::Broadcast(q) => RedisQueue::Broadcast(
                BroadcastQueue { queue: q.queue.clone() },
            ),
            RedisQueue::Cooperative(q) => RedisQueue::Cooperative(
                CooperativeQueue { queue: q.queue.clone() },
            ),
        }
    }
}

/// The models of the queues of a map.
pub open spec fn declared_views(queues: Map<Seq<char>, RedisQueue>) -> Map<Seq<char>, QueueView> {
    queues.map_values(|q: RedisQueue| q@)
}

impl QueueView {
    /// The ID from which to read on where the last one is known or not: a broadcast queue goes
    /// on after the last entry, or with what is new; of a shared one, the group knows what
    /// nobody got yet.
    pub open spec fn start_id(self, last_id: Option<Seq<char>>) -> Seq<char> {
        if self.broadcast {
            match last_id {
                Some(id) => id,
                None => "$"@,
            }
        } else {
            ">"@
        }
    }
}

impl RedisQueue {
    /// The stream of the queue.
    pub fn name(&self) -> (r: &str)
        ensures
            r@ == self@.queue,
    {
        match self {
            RedisQueue::Broadcast(q) => q.queue.as_str(),
            RedisQueue::Cooperative(q) => q.queue.as_str(),
        }
    }

    /// Whether every consumer gets every message.
    pub fn is_broadcast(&self) -> (r: bool)
        ensures
            r == self@.broadcast,
    {
        match self {
            RedisQueue::Broadcast(_) => true,
            RedisQueue::Cooperative(_) => false,
        }
    }

    /// Subscribes to the queue with a reader, to go on where the last ID is known or not.
    pub fn subscribe<C>(
        &self,
        reader: &RedisStreamsBatchReader,
        last_id: Option<String>,
        callback: C,
    ) -> (r: StreamObserver<C>)
        ensures
            r@ == (StreamObserverView {
                key: self@.queue,
                last_id: self@.start_id(opt_text(last_id)),
                callback,
            }),
    {
        let start_id = self.start_id(&last_id);
        reader.subscribe(String::from(self.name()), Some(start_id), callback)
    }

    /// The ID from which to read on.
    pub fn start_id(&self, last_id: &Option<String>) -> (r: String)
        ensures
            r@ == self@.start_id(opt_text(*last_id)),
    {
        match self {
            RedisQueue::Broadcast(_) => match copy_opt(last_id) {
                Some(id) => id,
                None => "$".to_owned(),
            },
            RedisQueue::Cooperative(_) => ">".to_owned(),
        }
    }
}

/// What to ask of the server to set up a queue.
#[derive(Debug, PartialEq, Eq)]
pub enum SetupAction {
    /// Add an entry with one field to a stream.
    AddEntry { key: String, id: String, field: String, value: String },
    /// Wait.
    Sleep { millis: u64 },
    /// Delete an entry of a stream.
    DeleteEntry { key: String, id: String },
    /// Create a group, and the stream where there is none.
    CreateGroup { key: String, group: String, id: String },
    /// Create a consumer in a group.
    CreateConsumer { key: String, group: String, consumer: String },
}

/// The model of a [`SetupAction`].
pub enum SetupActionView {
    AddEntry { key: Seq<char>, id: Seq<char>, field: Seq<char>, value: Seq<char> },
    Sleep { millis: u64 },
    DeleteEntry { key: Seq<char>, id: Seq<char> },
    CreateGroup { key: Seq<char>, group: Seq<char>, id: Seq<char> },
    CreateConsumer { key: Seq<char>, group: Seq<char>, consumer: Seq<char> },
}

impl View for SetupAction {
    type V = SetupActionView;

    open spec fn view(&self) -> SetupActionView {
        match *self {
            SetupAction::AddEntry { key, id, field, value } => SetupActionView::AddEntry {
                key: key@,
                id: id@,
                field: field@,
                value: value@,
            },
            SetupAction::Sleep { millis } => SetupActionView::Sleep { millis },
            SetupAction::DeleteEntry { key, id } => SetupActionView::DeleteEntry {
                key: key@,
                id: id@,
            },
            SetupAction::CreateGroup { key, group, id } => SetupActionView::CreateGroup {
                key: key@,
                group: group@,
                id: id@,
            },
            SetupAction::CreateConsumer { key, group, consumer } => {
                SetupActionView::CreateConsumer { key: key@, group: group@, consumer: consumer@ }
            },
        }
    }
}

/// What the server said.
pub enum SetupEvent<E> {
    /// An entry was added, under an ID.
    Added(Result<Option<String>, E>),
    /// The wait is over.
    Slept,
    /// The command was carried out.
    Done(Result<(), E>),
}

/// The model of a [`SetupEvent`].
pub enum SetupEventView<E> {
    Added(Result<Option<Seq<char>>, E>),
    Slept,
    Done(Result<(), E>),
}

impl<E> View for SetupEvent<E> {
    type V = SetupEventView<E>;

    open spec fn view(&self) -> SetupEventView<E> {
        match *self {
            SetupEvent::Added(Ok(id)) => SetupEventView::Added(Ok(opt_text(id))),
            SetupEvent::Added(Err(e)) => SetupEventView::Added(Err(e)),
            SetupEvent::Slept => SetupEventView::Slept,
            SetupEvent::Done(r) => SetupEventView::Done(r),
        }
    }
}

/// The setting up of a queue.
#[derive(Debug)]
pub enum QueueSetup {
    /// The first entry of a broadcast queue is being added, so that there is a stream.
    Adding { queue: String },
    /// That entry is there for a moment.
    Waiting { queue: String, id: String },
    /// That entry is being deleted.
    Deleting { queue: String },
    /// The group of a shared queue is being created.
    Grouping { queue: String, group: String, consumer: String },
    /// The consumer is being created.
    Joining { queue: String },
}

/// The model of a [`QueueSetup`].
pub enum SetupView {
    Adding { queue: Seq<char> },
    Waiting { queue: Seq<char>, id: Seq<char> },
    Deleting { queue: Seq<char> },
    Grouping { queue: Seq<char>, group: Seq<char>, consumer: Seq<char> },
    Joining { queue: Seq<char> },
}

impl View for QueueSetup {
    type V = SetupView;

    open spec fn view(&self) -> SetupView {
        match *self {
            QueueSetup::Adding { queue } => SetupView::Adding { queue: queue@ },
            QueueSetup::Waiting { queue, id } => SetupView::Waiting { queue: queue@, id: id@ },
            QueueSetup::Deleting { queue } => SetupView::Deleting { queue: queue@ },
            QueueSetup::Grouping { queue, group, consumer } => SetupView::Grouping {
                queue: queue@,
                group: group@,
                consumer: consumer@,
            },
            QueueSetup::Joining { queue } => SetupView::Joining { queue: queue@ },
        }
    }
}

impl SetupView {
    /// The queue that is being set up.
    pub open spec fn target(self) -> QueueView {
        match self {
            SetupView::Adding { queue } => QueueView { queue, broadcast: true },
            SetupView::Waiting { queue, .. } => QueueView { queue, broadcast: true },
            SetupView::Deleting { queue } => QueueView { queue, broadcast: true },
            SetupView::Grouping { queue, .. } => QueueView { queue, broadcast: false },
            SetupView::Joining { queue } => QueueView { queue, broadcast: false },
        }
    }
}

/// What comes after an event.
pub enum SetupStep<E> {
    /// Something is to be asked of the server.
    Go(QueueSetup, SetupAction),
    /// The queue is set up.
    Ready(RedisQueue),
    /// The server refused something.
    Failed(E),
}

/// The model of a [`SetupStep`].
pub enum SetupStepView<E> {
    Go(SetupView, SetupActionView),
    Ready(QueueView),
    Failed(E),
}

impl<E> View for SetupStep<E> {
    type V = SetupStepView<E>;

    open spec fn view(&self) -> SetupStepView<E> {
        match *self {
            SetupStep::Go(setup, action) => SetupStepView::Go(setup@, action@),
            SetupStep::Ready(queue) => SetupStepView::Ready(queue@),
            SetupStep::Failed(e) => SetupStepView::Failed(e),
        }
    }
}

/// How the setting up of a queue begins. A stream comes into being with a first entry, or with
/// a group that gets what is new.
pub open spec fn setup_begin(
    target: QueueView,
    group: Seq<char>,
    consumer: Seq<char>,
) -> (SetupView, SetupActionView) {
    let queue = target.queue;
    if target.broadcast {
        (
            SetupView::Adding { queue },
            SetupActionView::AddEntry { key: queue, id: "*"@, field: "init"@, value: "0"@ },
        )
    } else {
        (
            SetupView::Grouping { queue, group, consumer },
            SetupActionView::CreateGroup { key: queue, group, id: "$"@ },
        )
    }
}

/// Whether an event can come.
pub open spec fn setup_expects<E>(setup: SetupView, event: SetupEventView<E>) -> bool {
    match setup {
        SetupView::Adding { .. } => event is Added,
        SetupView::Waiting { .. } => event is Slept,
        _ => event is Done,
    }
}

/// What comes after an event. The first entry is deleted again after a moment. That a group
/// could not be created does not matter: it may be there already.
pub open spec fn setup_next<E>(setup: SetupView, event: SetupEventView<E>) -> SetupStepView<E> {
    match (setup, event) {
        (SetupView::Adding { queue }, SetupEventView::Added(Ok(Some(id)))) => SetupStepView::Go(
            SetupView::Waiting { queue, id },
            SetupActionView::Sleep { millis: 1 },
        ),
        (SetupView::Waiting { queue, id }, _) => SetupStepView::Go(
            SetupView::Deleting { queue },
            SetupActionView::DeleteEntry { key: queue, id },
        ),
        (SetupView::Grouping { queue, group, consumer }, _) => SetupStepView::Go(
            SetupView::Joining { queue },
            SetupActionView::CreateConsumer { key: queue, group, consumer },
        ),
        (_, SetupEventView::Added(Err(e))) => SetupStepView::Failed(e),
        (_, SetupEventView::Done(Err(e))) => SetupStepView::Failed(e),
        _ => SetupStepView::Ready(setup.target()),
    }
}

/// The setting up of a queue stays with that queue to the end.
pub proof fn setup_keeps_its_target<E>(setup: SetupView, event: SetupEventView<E>)
    ensures
        match setup_next(setup, event) {
            SetupStepView::Go(after, _) => after.target() == setup.target(),
            SetupStepView::Ready(queue) => queue == setup.target(),
            SetupStepView::Failed(_) => true,
        },
{
}

/// The entry that makes the stream of a broadcast queue is deleted again: once it was added
/// under an ID, the wait is followed by its deletion, and the queue is ready only then.
pub proof fn first_entry_is_deleted<E>(queue: Seq<char>, id: Seq<char>)
    ensures
        ({
            let waiting = SetupView::Waiting { queue, id };
            let deleting = SetupView::Deleting { queue };
            &&& setup_next(
                SetupView::Adding { queue },
                SetupEventView::<E>::Added(Ok(Some(id))),
            ) == SetupStepView::<E>::Go(waiting, SetupActionView::Sleep { millis: 1 })
            &&& setup_next(waiting, SetupEventView::<E>::Slept) == SetupStepView::<E>::Go(
                deleting,
                SetupActionView::DeleteEntry { key: queue, id },
            )
            &&& setup_next(deleting, SetupEventView::<E>::Done(Ok(()))) == SetupStepView::<
                E,
            >::Ready(QueueView { queue, broadcast: true })
        }),
{
}

impl BroadcastQueue {
    /// Begins to set up the queue: a first entry makes the stream.
    pub fn new(queue: &str) -> (r: (QueueSetup, SetupAction))
        ensures
            (r.0@, r.1@) == setup_begin(
                QueueView { queue: queue@, broadcast: true },
                Seq::empty(),
                Seq::empty(),
            ),
    {
        (
            QueueSetup::Adding { queue: queue.to_owned() },
            SetupAction::AddEntry {
                key: queue.to_owned(),
                id: "*".to_owned(),
                field: "init".to_owned(),
                value: "0".to_owned(),
            },
        )
    }
}

impl CooperativeQueue {
    /// Begins to set up the queue: its group makes the stream.
    pub fn new(queue: &str, group: &str, consumer: &str) -> (r: (QueueSetup, SetupAction))
        ensures
            (r.0@, r.1@) == setup_begin(
                QueueView { queue: queue@, broadcast: false },
                group@,
                consumer@,
            ),
    {
        (
            QueueSetup::Grouping {
                queue: queue.to_owned(),
                group: group.to_owned(),
                consumer: consumer.to_owned(),
            },
            SetupAction::CreateGroup {
                key: queue.to_owned(),
                group: group.to_owned(),
                id: "$".to_owned(),
            },
        )
    }
}

impl QueueSetup {
    /// What comes after an event.
    pub fn step<E>(self, event: SetupEvent<E>) -> (r: SetupStep<E>)
        requires
            setup_expects(self@, event@),
        ensures
            r@ == setup_next(self@, event@),
    {
        match (self, event) {
            (QueueSetup::Adding { queue }, SetupEvent::Added(Ok(Some(id)))) => SetupStep::Go(
                QueueSetup::Waiting { queue, id },
                SetupAction::Sleep { millis: 1 },
            ),
            (QueueSetup::Waiting { queue, id }, _) => {
                let key = queue.clone();
                SetupStep::Go(
                    QueueSetup::Deleting { queue },
                    SetupAction::DeleteEntry { key, id },
                )
            },
            (QueueSetup::Grouping { queue, group, consumer }, _) => {
                let key = queue.clone();
                SetupStep::Go(
                    QueueSetup::Joining { queue },
                    SetupAction::CreateConsumer { key, group, consumer },
                )
            },
            (_, SetupEvent::Added(Err(e))) => SetupStep::Failed(e),
            (_, SetupEvent::Done(Err(e))) => SetupStep::Failed(e),
            (QueueSetup::Joining { queue }, _) => SetupStep::Ready(
                RedisQueue::Cooperative(CooperativeQueue { queue }),
            ),
            (QueueSetup::Adding { queue }, _) => SetupStep::Ready(
                RedisQueue::Broadcast(BroadcastQueue { queue }),
            ),
            (QueueSetup::Deleting { queue }, _) => SetupStep::Ready(
                RedisQueue::Broadcast(BroadcastQueue { queue }),
            ),
        }
    }
}

/// A broadcast queue is read from the ID that was come to, and from what is new where there is
/// none. A shared queue is always read from what nobody got yet.
pub proof fn reading_starts_by_kind(queue: Seq<char>, last_id: Option<Seq<char>>)
    ensures
        ({
            let broadcast = QueueView { queue, broadcast: true };
            let shared = QueueView { queue, broadcast: false };
            &&& last_id matches Some(id) ==> broadcast.start_id(last_id) == id
            &&& last_id is None ==> broadcast.start_id(last_id) == "$"@
            &&& shared.start_id(last_id) == ">"@
        }),
{
}

/// A broadcast queue is set up by an entry that makes its stream, and a shared queue by a group
/// that makes it and gets what is new. Both name the stream of the queue.
pub proof fn setting_up_begins_by_kind(queue: Seq<char>, group: Seq<char>, consumer: Seq<char>)
    ensures
        ({
            let broadcast = setup_begin(QueueView { queue, broadcast: true }, group, consumer);
            let shared = setup_begin(QueueView { queue, broadcast: false }, group, consumer);
            &&& broadcast.1 matches SetupActionView::AddEntry { key, id, field, value } && key
                == queue && id == "*"@ && field == "init"@ && value == "0"@
            &&& broadcast.0 is Adding
            &&& broadcast.0.target().queue == queue && broadcast.0.target().broadcast
            &&& shared.1 matches SetupActionView::CreateGroup { key, group: g, id } && key == queue
                && g == group && id == "$"@
            &&& shared.0 == (SetupView::Grouping { queue, group, consumer })
            &&& shared.0.target().queue == queue && !shared.0.target().broadcast
        }),
{
}

/// Whatever comes of creating the group of a shared queue, the consumer is created in that group,
/// and the queue is ready if and only if that succeeds.
pub proof fn consumers_join_their_group<E>(
    queue: Seq<char>,
    group: Seq<char>,
    consumer: Seq<char>,
    created: Result<(), E>,
    joined: Result<(), E>,
)
    ensures
        setup_next(
            SetupView::Grouping { queue, group, consumer },
            SetupEventView::Done(created),
        ) matches SetupStepView::Go(joining, action) && (action matches
            SetupActionView::CreateConsumer { key, group: g, consumer: c } && key == queue && g
            == group && c == consumer) && setup_expects(joining, SetupEventView::Done(joined)) && (
        match joined {
            Ok(_) => setup_next(joining, SetupEventView::Done(joined)) == SetupStepView::<
                E,
            >::Ready(QueueView { queue, broadcast: false }),
            Err(e) => setup_next(joining, SetupEventView::Done(joined)) == SetupStepView::<
                E,
            >::Failed(e),
        }),
{
}

/// The setting up of a broadcast queue fails if and only if its first entry could not be added or
/// not be deleted again, with the error that came. Where the entry has no ID, there is nothing to
/// delete, and the queue is ready.
pub proof fn broadcast_queues_fail_with_the_server<E>(
    queue: Seq<char>,
    added: Result<Option<Seq<char>>, E>,
    deleted: Result<(), E>,
)
    ensures
        match added {
            Err(e) => setup_next(SetupView::Adding { queue }, SetupEventView::Added(added))
                == SetupStepView::<E>::Failed(e),
            Ok(None) => setup_next(SetupView::Adding { queue }, SetupEventView::Added(added))
                == SetupStepView::<E>::Ready(QueueView { queue, broadcast: true }),
            Ok(Some(_)) => setup_next(
                SetupView::Adding { queue },
                SetupEventView::Added(added),
            ) is Go,
        },
        match deleted {
            Err(e) => setup_next(SetupView::Deleting { queue }, SetupEventView::Done(deleted))
                == SetupStepView::<E>::Failed(e),
            Ok(_) => setup_next(SetupView::Deleting { queue }, SetupEventView::Done(deleted))
                == SetupStepView::<E>::Ready(QueueView { queue, broadcast: true }),
        },
{
}

/// The model of the declared queues leaves none out, and says of each what kind it is and which
/// stream it has.
pub proof fn models_leave_no_queue_out(queues: Map<Seq<char>, RedisQueue>, name: Seq<char>)
    ensures
        declared_views(queues).contains_key(name) <==> queues.contains_key(name),
        queues.contains_key(name) ==> match queues[name] {
            RedisQueue::Cooperative(queue) => !declared_views(queues)[name].broadcast
                && declared_views(queues)[name].queue == queue.queue@,
            RedisQueue::Broadcast(queue) => declared_views(queues)[name].broadcast
                && declared_views(queues)[name].queue == queue.queue@,
        },
{
}

} // verus!
